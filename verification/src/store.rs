use vstd::prelude::*;

use crate::value::DataError;
use crate::value::Kind;
use crate::value::Value;
use crate::value::kind_of;

verus! {

/// The abstract state of a store: the sequence of stored values together with
/// the builders for any char list, byte list or lists under construction.
pub struct StoreView<C> {
    pub values: Seq<Value<C>>,
    pub char_list: Option<Seq<char>>,
    pub byte_list: Option<Seq<u8>>,
    pub list_stack: Seq<(Seq<usize>, Seq<usize>)>,
}

/// Well-formedness of one stored value with respect to the addresses below it:
/// a composite references only strictly earlier addresses, which makes every
/// reachable value graph acyclic and finite.
pub open spec fn value_wf<C>(v: Value<C>, bound: int) -> bool {
    match v {
        Value::Pair(l, r) => l < bound && r < bound,
        Value::Range(l, r) => l < bound && r < bound,
        Value::Concatenation(l, r) => l < bound && r < bound,
        Value::Slice(l, r) => l < bound && r < bound,
        Value::List(items, assocs) => {
            &&& forall|j: int| 0 <= j < items@.len() ==> #[trigger] items@[j] < bound
            &&& forall|j: int| 0 <= j < assocs@.len() ==> #[trigger] assocs@[j] < bound
        },
        _ => true,
    }
}

/// Well-formedness of a whole heap: the three shared constants sit at the
/// bottom, and every value references only addresses allocated before it.
pub open spec fn heap_wf<C>(h: Seq<Value<C>>) -> bool {
    &&& h.len() >= 3
    &&& h[0] == Value::<C>::Unit
    &&& h[1] == Value::<C>::False
    &&& h[2] == Value::<C>::True
    &&& forall|i: int| 0 <= i < h.len() ==> value_wf(#[trigger] h[i], i)
}

/// True when the two states hold the same builders, so that an operation is
/// known to have touched the value sequence alone.
pub open spec fn same_builders<C>(a: StoreView<C>, b: StoreView<C>) -> bool {
    &&& a.char_list == b.char_list
    &&& a.byte_list == b.byte_list
    &&& a.list_stack == b.list_stack
}

/// An append-only, address-indexed store of tagged values. Addresses are
/// assigned in allocation order; three shared constants occupy the first
/// three: Unit at 0, False at 1 and True at 2, and the writers for those
/// kinds hand the shared address back instead of allocating.
pub struct Data<C> {
    values: Vec<Value<C>>,
    char_active: bool,
    char_buf: Vec<char>,
    byte_active: bool,
    byte_buf: Vec<u8>,
    list_stack: Vec<(Vec<usize>, Vec<usize>)>,
}

impl<C> View for Data<C> {
    type V = StoreView<C>;

    closed spec fn view(&self) -> StoreView<C> {
        StoreView {
            values: self.values@,
            char_list: if self.char_active {
                Option::Some(self.char_buf@)
            } else {
                Option::None
            },
            byte_list: if self.byte_active {
                Option::Some(self.byte_buf@)
            } else {
                Option::None
            },
            list_stack: self.list_stack@.map_values(|b: (Vec<usize>, Vec<usize>)| (b.0@, b.1@)),
        }
    }
}

impl<C> Data<C> {
    /// A fresh store, holding only the three shared constants.
    pub fn new() -> (r: Data<C>)
        ensures
            r@.values == seq![Value::<C>::Unit, Value::<C>::False, Value::<C>::True],
            r@.char_list is None,
            r@.byte_list is None,
            r@.list_stack.len() == 0,
    {
        let mut values: Vec<Value<C>> = Vec::new();
        values.push(Value::Unit);
        values.push(Value::False);
        values.push(Value::True);
        let r = Data {
            values,
            char_active: false,
            char_buf: Vec::new(),
            byte_active: false,
            byte_buf: Vec::new(),
            list_stack: Vec::new(),
        };
        proof {
            assert(r@.values =~= seq![Value::<C>::Unit, Value::<C>::False, Value::<C>::True]);
            assert(r@.list_stack =~= Seq::<(Seq<usize>, Seq<usize>)>::empty());
        }
        r
    }

    /// How many values the store holds.
    pub fn get_data_len(&self) -> (r: usize)
        ensures
            r == self@.values.len(),
    {
        self.values.len()
    }

    /// The stored values, in allocation order.
    pub fn get_data(&self) -> (r: &Vec<Value<C>>)
        ensures
            r@ == self@.values,
    {
        &self.values
    }

    /// The kind of the value at an address.
    pub fn get_data_type(&self, addr: usize) -> (r: Result<Kind, DataError>)
        ensures
            addr < self@.values.len() ==> r == Ok::<Kind, DataError>(kind_of(self@.values[addr as int])),
            addr >= self@.values.len() ==> r == Err::<Kind, DataError>(DataError::AddressOutOfBounds),
    {
        if addr < self.values.len() {
            Ok(self.values[addr].kind())
        } else {
            Err(DataError::AddressOutOfBounds)
        }
    }

    /// The numeric payload at an address holding a Number.
    pub fn get_number(&self, addr: usize) -> (r: Result<i64, DataError>)
        ensures
            r is Ok <==> (addr < self@.values.len() && self@.values[addr as int] is Number),
            r matches Ok(n) ==> self@.values[addr as int] == Value::<C>::Number(n),
            r is Err ==> (r == Err::<i64, DataError>(if addr < self@.values.len() {
                DataError::WrongKind
            } else {
                DataError::AddressOutOfBounds
            })),
    {
        if addr < self.values.len() {
            match self.values[addr] {
                Value::Number(n) => Ok(n),
                _ => Err(DataError::WrongKind),
            }
        } else {
            Err(DataError::AddressOutOfBounds)
        }
    }

    /// The kind tag stored at an address holding a Type value.
    pub fn get_type(&self, addr: usize) -> (r: Result<Kind, DataError>)
        ensures
            r is Ok <==> (addr < self@.values.len() && self@.values[addr as int] is Type),
            r matches Ok(k) ==> self@.values[addr as int] == Value::<C>::Type(k),
            r is Err ==> (r == Err::<Kind, DataError>(if addr < self@.values.len() {
                DataError::WrongKind
            } else {
                DataError::AddressOutOfBounds
            })),
    {
        if addr < self.values.len() {
            match self.values[addr] {
                Value::Type(k) => Ok(k),
                _ => Err(DataError::WrongKind),
            }
        } else {
            Err(DataError::AddressOutOfBounds)
        }
    }

    /// The character at an address holding a Char.
    pub fn get_char(&self, addr: usize) -> (r: Result<char, DataError>)
        ensures
            r is Ok <==> (addr < self@.values.len() && self@.values[addr as int] is Char),
            r matches Ok(c) ==> self@.values[addr as int] == Value::<C>::Char(c),
            r is Err ==> (r == Err::<char, DataError>(if addr < self@.values.len() {
                DataError::WrongKind
            } else {
                DataError::AddressOutOfBounds
            })),
    {
        if addr < self.values.len() {
            match self.values[addr] {
                Value::Char(c) => Ok(c),
                _ => Err(DataError::WrongKind),
            }
        } else {
            Err(DataError::AddressOutOfBounds)
        }
    }

    /// The byte at an address holding a Byte.
    pub fn get_byte(&self, addr: usize) -> (r: Result<u8, DataError>)
        ensures
            r is Ok <==> (addr < self@.values.len() && self@.values[addr as int] is Byte),
            r matches Ok(b) ==> self@.values[addr as int] == Value::<C>::Byte(b),
            r is Err ==> (r == Err::<u8, DataError>(if addr < self@.values.len() {
                DataError::WrongKind
            } else {
                DataError::AddressOutOfBounds
            })),
    {
        if addr < self.values.len() {
            match self.values[addr] {
                Value::Byte(b) => Ok(b),
                _ => Err(DataError::WrongKind),
            }
        } else {
            Err(DataError::AddressOutOfBounds)
        }
    }

    /// The symbol id at an address holding a Symbol.
    pub fn get_symbol(&self, addr: usize) -> (r: Result<u64, DataError>)
        ensures
            r is Ok <==> (addr < self@.values.len() && self@.values[addr as int] is Symbol),
            r matches Ok(s) ==> self@.values[addr as int] == Value::<C>::Symbol(s),
            r is Err ==> (r == Err::<u64, DataError>(if addr < self@.values.len() {
                DataError::WrongKind
            } else {
                DataError::AddressOutOfBounds
            })),
    {
        if addr < self.values.len() {
            match self.values[addr] {
                Value::Symbol(s) => Ok(s),
                _ => Err(DataError::WrongKind),
            }
        } else {
            Err(DataError::AddressOutOfBounds)
        }
    }

    /// The jump-table handle at an address holding an Expression.
    pub fn get_expression(&self, addr: usize) -> (r: Result<usize, DataError>)
        ensures
            r is Ok <==> (addr < self@.values.len() && self@.values[addr as int] is Expression),
            r matches Ok(x) ==> self@.values[addr as int] == Value::<C>::Expression(x),
            r is Err ==> (r == Err::<usize, DataError>(if addr < self@.values.len() {
                DataError::WrongKind
            } else {
                DataError::AddressOutOfBounds
            })),
    {
        if addr < self.values.len() {
            match self.values[addr] {
                Value::Expression(x) => Ok(x),
                _ => Err(DataError::WrongKind),
            }
        } else {
            Err(DataError::AddressOutOfBounds)
        }
    }

    /// The registry handle at an address holding an External.
    pub fn get_external(&self, addr: usize) -> (r: Result<usize, DataError>)
        ensures
            r is Ok <==> (addr < self@.values.len() && self@.values[addr as int] is External),
            r matches Ok(x) ==> self@.values[addr as int] == Value::<C>::External(x),
            r is Err ==> (r == Err::<usize, DataError>(if addr < self@.values.len() {
                DataError::WrongKind
            } else {
                DataError::AddressOutOfBounds
            })),
    {
        if addr < self.values.len() {
            match self.values[addr] {
                Value::External(x) => Ok(x),
                _ => Err(DataError::WrongKind),
            }
        } else {
            Err(DataError::AddressOutOfBounds)
        }
    }

    /// The two operand addresses of a Pair.
    pub fn get_pair(&self, addr: usize) -> (r: Result<(usize, usize), DataError>)
        ensures
            r is Ok <==> (addr < self@.values.len() && self@.values[addr as int] is Pair),
            r matches Ok(p) ==> self@.values[addr as int] == Value::<C>::Pair(p.0, p.1),
            r is Err ==> (r == Err::<(usize, usize), DataError>(if addr < self@.values.len() {
                DataError::WrongKind
            } else {
                DataError::AddressOutOfBounds
            })),
    {
        if addr < self.values.len() {
            match self.values[addr] {
                Value::Pair(l, r) => Ok((l, r)),
                _ => Err(DataError::WrongKind),
            }
        } else {
            Err(DataError::AddressOutOfBounds)
        }
    }

    /// The start and end addresses of a Range.
    pub fn get_range(&self, addr: usize) -> (r: Result<(usize, usize), DataError>)
        ensures
            r is Ok <==> (addr < self@.values.len() && self@.values[addr as int] is Range),
            r matches Ok(p) ==> self@.values[addr as int] == Value::<C>::Range(p.0, p.1),
            r is Err ==> (r == Err::<(usize, usize), DataError>(if addr < self@.values.len() {
                DataError::WrongKind
            } else {
                DataError::AddressOutOfBounds
            })),
    {
        if addr < self.values.len() {
            match self.values[addr] {
                Value::Range(l, r) => Ok((l, r)),
                _ => Err(DataError::WrongKind),
            }
        } else {
            Err(DataError::AddressOutOfBounds)
        }
    }

    /// The value and range addresses of a Slice.
    pub fn get_slice(&self, addr: usize) -> (r: Result<(usize, usize), DataError>)
        ensures
            r is Ok <==> (addr < self@.values.len() && self@.values[addr as int] is Slice),
            r matches Ok(p) ==> self@.values[addr as int] == Value::<C>::Slice(p.0, p.1),
            r is Err ==> (r == Err::<(usize, usize), DataError>(if addr < self@.values.len() {
                DataError::WrongKind
            } else {
                DataError::AddressOutOfBounds
            })),
    {
        if addr < self.values.len() {
            match self.values[addr] {
                Value::Slice(l, r) => Ok((l, r)),
                _ => Err(DataError::WrongKind),
            }
        } else {
            Err(DataError::AddressOutOfBounds)
        }
    }

    /// The current and next operand addresses of a Concatenation.
    pub fn get_concatenation(&self, addr: usize) -> (r: Result<(usize, usize), DataError>)
        ensures
            r is Ok <==> (addr < self@.values.len() && self@.values[addr as int] is Concatenation),
            r matches Ok(p) ==> self@.values[addr as int] == Value::<C>::Concatenation(p.0, p.1),
            r is Err ==> (r == Err::<(usize, usize), DataError>(if addr < self@.values.len() {
                DataError::WrongKind
            } else {
                DataError::AddressOutOfBounds
            })),
    {
        if addr < self.values.len() {
            match self.values[addr] {
                Value::Concatenation(l, r) => Ok((l, r)),
                _ => Err(DataError::WrongKind),
            }
        } else {
            Err(DataError::AddressOutOfBounds)
        }
    }

    /// How many characters the CharList at an address holds.
    pub fn get_char_list_len(&self, addr: usize) -> (r: Result<usize, DataError>)
        ensures
            r is Ok <==> (addr < self@.values.len() && self@.values[addr as int] is CharList),
            r matches Ok(n) ==> n == self@.values[addr as int]->CharList_0@.len(),
            r is Err ==> (r == Err::<usize, DataError>(if addr < self@.values.len() {
                DataError::WrongKind
            } else {
                DataError::AddressOutOfBounds
            })),
    {
        if addr < self.values.len() {
            match &self.values[addr] {
                Value::CharList(cs) => Ok(cs.len()),
                _ => Err(DataError::WrongKind),
            }
        } else {
            Err(DataError::AddressOutOfBounds)
        }
    }

    /// The character at an index of the CharList at an address.
    pub fn get_char_list_item(&self, addr: usize, item_index: usize) -> (r: Result<char, DataError>)
        ensures
            r is Ok <==> (addr < self@.values.len() && self@.values[addr as int] is CharList
                && item_index < self@.values[addr as int]->CharList_0@.len()),
            r matches Ok(c) ==> c == self@.values[addr as int]->CharList_0@[item_index as int],
    {
        if addr < self.values.len() {
            match &self.values[addr] {
                Value::CharList(cs) => {
                    if item_index < cs.len() {
                        Ok(cs[item_index])
                    } else {
                        Err(DataError::AddressOutOfBounds)
                    }
                },
                _ => Err(DataError::WrongKind),
            }
        } else {
            Err(DataError::AddressOutOfBounds)
        }
    }

    /// How many bytes the ByteList at an address holds.
    pub fn get_byte_list_len(&self, addr: usize) -> (r: Result<usize, DataError>)
        ensures
            r is Ok <==> (addr < self@.values.len() && self@.values[addr as int] is ByteList),
            r matches Ok(n) ==> n == self@.values[addr as int]->ByteList_0@.len(),
            r is Err ==> (r == Err::<usize, DataError>(if addr < self@.values.len() {
                DataError::WrongKind
            } else {
                DataError::AddressOutOfBounds
            })),
    {
        if addr < self.values.len() {
            match &self.values[addr] {
                Value::ByteList(bs) => Ok(bs.len()),
                _ => Err(DataError::WrongKind),
            }
        } else {
            Err(DataError::AddressOutOfBounds)
        }
    }

    /// The byte at an index of the ByteList at an address.
    pub fn get_byte_list_item(&self, addr: usize, item_index: usize) -> (r: Result<u8, DataError>)
        ensures
            r is Ok <==> (addr < self@.values.len() && self@.values[addr as int] is ByteList
                && item_index < self@.values[addr as int]->ByteList_0@.len()),
            r matches Ok(b) ==> b == self@.values[addr as int]->ByteList_0@[item_index as int],
    {
        if addr < self.values.len() {
            match &self.values[addr] {
                Value::ByteList(bs) => {
                    if item_index < bs.len() {
                        Ok(bs[item_index])
                    } else {
                        Err(DataError::AddressOutOfBounds)
                    }
                },
                _ => Err(DataError::WrongKind),
            }
        } else {
            Err(DataError::AddressOutOfBounds)
        }
    }

    /// How many items the List at an address holds.
    pub fn get_list_len(&self, addr: usize) -> (r: Result<usize, DataError>)
        ensures
            r is Ok <==> (addr < self@.values.len() && self@.values[addr as int] is List),
            r matches Ok(n) ==> n == self@.values[addr as int]->List_0@.len(),
            r is Err ==> (r == Err::<usize, DataError>(if addr < self@.values.len() {
                DataError::WrongKind
            } else {
                DataError::AddressOutOfBounds
            })),
    {
        if addr < self.values.len() {
            match &self.values[addr] {
                Value::List(items, _) => Ok(items.len()),
                _ => Err(DataError::WrongKind),
            }
        } else {
            Err(DataError::AddressOutOfBounds)
        }
    }

    /// The item address at an index of the List at an address.
    pub fn get_list_item(&self, addr: usize, item_index: usize) -> (r: Result<usize, DataError>)
        ensures
            r is Ok <==> (addr < self@.values.len() && self@.values[addr as int] is List
                && item_index < self@.values[addr as int]->List_0@.len()),
            r matches Ok(item) ==> item == self@.values[addr as int]->List_0@[item_index as int],
    {
        if addr < self.values.len() {
            match &self.values[addr] {
                Value::List(items, _) => {
                    if item_index < items.len() {
                        Ok(items[item_index])
                    } else {
                        Err(DataError::AddressOutOfBounds)
                    }
                },
                _ => Err(DataError::WrongKind),
            }
        } else {
            Err(DataError::AddressOutOfBounds)
        }
    }

    /// How many associations the List at an address holds.
    pub fn get_list_associations_len(&self, addr: usize) -> (r: Result<usize, DataError>)
        ensures
            r is Ok <==> (addr < self@.values.len() && self@.values[addr as int] is List),
            r matches Ok(n) ==> n == self@.values[addr as int]->List_1@.len(),
            r is Err ==> (r == Err::<usize, DataError>(if addr < self@.values.len() {
                DataError::WrongKind
            } else {
                DataError::AddressOutOfBounds
            })),
    {
        if addr < self.values.len() {
            match &self.values[addr] {
                Value::List(_, assocs) => Ok(assocs.len()),
                _ => Err(DataError::WrongKind),
            }
        } else {
            Err(DataError::AddressOutOfBounds)
        }
    }

    /// Appends one value, with all parts already checked against the
    /// invariant, and returns its address.
    fn push_value(&mut self, v: Value<C>) -> (r: usize)
        ensures
            final(self)@.values == old(self)@.values.push(v),
            same_builders(old(self)@, final(self)@),
            r == old(self)@.values.len(),
    {
        let r = self.values.len();
        self.values.push(v);
        r
    }

    /// Returns the shared Unit address; the store is left as it is.
    pub fn add_unit(&mut self) -> (r: Result<usize, DataError>)
        ensures
            final(self)@ == old(self)@,
            r == Ok::<usize, DataError>(0usize),
    {
        Ok(0)
    }

    /// Returns the shared True address; the store is left as it is.
    pub fn add_true(&mut self) -> (r: Result<usize, DataError>)
        ensures
            final(self)@ == old(self)@,
            r == Ok::<usize, DataError>(2usize),
    {
        Ok(2)
    }

    /// Returns the shared False address; the store is left as it is.
    pub fn add_false(&mut self) -> (r: Result<usize, DataError>)
        ensures
            final(self)@ == old(self)@,
            r == Ok::<usize, DataError>(1usize),
    {
        Ok(1)
    }

    /// Appends a Number value and returns its address.
    pub fn add_number(&mut self, value: i64) -> (r: Result<usize, DataError>)
        ensures
            final(self)@.values == old(self)@.values.push(Value::<C>::Number(value)),
            same_builders(old(self)@, final(self)@),
            r matches Ok(addr) && addr == old(self)@.values.len(),
    {
        Ok(self.push_value(Value::Number(value)))
    }

    /// Appends a Type value and returns its address.
    pub fn add_type(&mut self, value: Kind) -> (r: Result<usize, DataError>)
        ensures
            final(self)@.values == old(self)@.values.push(Value::<C>::Type(value)),
            same_builders(old(self)@, final(self)@),
            r matches Ok(addr) && addr == old(self)@.values.len(),
    {
        Ok(self.push_value(Value::Type(value)))
    }

    /// Appends a Char value and returns its address.
    pub fn add_char(&mut self, value: char) -> (r: Result<usize, DataError>)
        ensures
            final(self)@.values == old(self)@.values.push(Value::<C>::Char(value)),
            same_builders(old(self)@, final(self)@),
            r matches Ok(addr) && addr == old(self)@.values.len(),
    {
        Ok(self.push_value(Value::Char(value)))
    }

    /// Appends a Byte value and returns its address.
    pub fn add_byte(&mut self, value: u8) -> (r: Result<usize, DataError>)
        ensures
            final(self)@.values == old(self)@.values.push(Value::<C>::Byte(value)),
            same_builders(old(self)@, final(self)@),
            r matches Ok(addr) && addr == old(self)@.values.len(),
    {
        Ok(self.push_value(Value::Byte(value)))
    }

    /// Appends a Symbol value and returns its address.
    pub fn add_symbol(&mut self, value: u64) -> (r: Result<usize, DataError>)
        ensures
            final(self)@.values == old(self)@.values.push(Value::<C>::Symbol(value)),
            same_builders(old(self)@, final(self)@),
            r matches Ok(addr) && addr == old(self)@.values.len(),
    {
        Ok(self.push_value(Value::Symbol(value)))
    }

    /// Appends an Expression value and returns its address.
    pub fn add_expression(&mut self, value: usize) -> (r: Result<usize, DataError>)
        ensures
            final(self)@.values == old(self)@.values.push(Value::<C>::Expression(value)),
            same_builders(old(self)@, final(self)@),
            r matches Ok(addr) && addr == old(self)@.values.len(),
    {
        Ok(self.push_value(Value::Expression(value)))
    }

    /// Appends an External value and returns its address.
    pub fn add_external(&mut self, value: usize) -> (r: Result<usize, DataError>)
        ensures
            final(self)@.values == old(self)@.values.push(Value::<C>::External(value)),
            same_builders(old(self)@, final(self)@),
            r matches Ok(addr) && addr == old(self)@.values.len(),
    {
        Ok(self.push_value(Value::External(value)))
    }

    /// Appends a Custom value with the given payload and returns its address.
    pub fn add_custom(&mut self, value: C) -> (r: Result<usize, DataError>)
        ensures
            final(self)@.values == old(self)@.values.push(Value::<C>::Custom(value)),
            same_builders(old(self)@, final(self)@),
            r matches Ok(addr) && addr == old(self)@.values.len(),
    {
        Ok(self.push_value(Value::Custom(value)))
    }

    /// Appends an Invalid sentinel and returns its address.
    pub fn add_invalid(&mut self) -> (r: Result<usize, DataError>)
        ensures
            final(self)@.values == old(self)@.values.push(Value::<C>::Invalid),
            same_builders(old(self)@, final(self)@),
            r matches Ok(addr) && addr == old(self)@.values.len(),
    {
        Ok(self.push_value(Value::Invalid))
    }

    /// Appends a Pair of two already-stored addresses and returns its address.
    pub fn add_pair(&mut self, value: (usize, usize)) -> (r: Result<usize, DataError>)
        ensures
            r is Ok <==> (value.0 < old(self)@.values.len() && value.1 < old(self)@.values.len()),
            r is Ok ==> final(self)@.values == old(self)@.values.push(Value::<C>::Pair(value.0, value.1))
                && (r matches Ok(addr) && addr == old(self)@.values.len()),
            same_builders(old(self)@, final(self)@),
            r is Err ==> final(self)@ == old(self)@
                && r == Err::<usize, DataError>(DataError::AddressOutOfBounds),
    {
        if value.0 < self.values.len() && value.1 < self.values.len() {
            Ok(self.push_value(Value::Pair(value.0, value.1)))
        } else {
            Err(DataError::AddressOutOfBounds)
        }
    }

    /// Appends a Range over two already-stored addresses and returns its address.
    pub fn add_range(&mut self, start: usize, end: usize) -> (r: Result<usize, DataError>)
        ensures
            r is Ok <==> (start < old(self)@.values.len() && end < old(self)@.values.len()),
            r is Ok ==> final(self)@.values == old(self)@.values.push(Value::<C>::Range(start, end))
                && (r matches Ok(addr) && addr == old(self)@.values.len()),
            same_builders(old(self)@, final(self)@),
            r is Err ==> final(self)@ == old(self)@
                && r == Err::<usize, DataError>(DataError::AddressOutOfBounds),
    {
        if start < self.values.len() && end < self.values.len() {
            Ok(self.push_value(Value::Range(start, end)))
        } else {
            Err(DataError::AddressOutOfBounds)
        }
    }

    /// Appends a Slice of a value address and a range address and returns its
    /// address.
    pub fn add_slice(&mut self, value: usize, range: usize) -> (r: Result<usize, DataError>)
        ensures
            r is Ok <==> (value < old(self)@.values.len() && range < old(self)@.values.len()),
            r is Ok ==> final(self)@.values == old(self)@.values.push(Value::<C>::Slice(value, range))
                && (r matches Ok(addr) && addr == old(self)@.values.len()),
            same_builders(old(self)@, final(self)@),
            r is Err ==> final(self)@ == old(self)@
                && r == Err::<usize, DataError>(DataError::AddressOutOfBounds),
    {
        if value < self.values.len() && range < self.values.len() {
            Ok(self.push_value(Value::Slice(value, range)))
        } else {
            Err(DataError::AddressOutOfBounds)
        }
    }

    /// Appends a Concatenation of two already-stored addresses and returns its
    /// address.
    pub fn add_concatenation(&mut self, left: usize, right: usize) -> (r: Result<usize, DataError>)
        ensures
            r is Ok <==> (left < old(self)@.values.len() && right < old(self)@.values.len()),
            r is Ok ==> final(self)@.values == old(self)@.values.push(Value::<C>::Concatenation(left, right))
                && (r matches Ok(addr) && addr == old(self)@.values.len()),
            same_builders(old(self)@, final(self)@),
            r is Err ==> final(self)@ == old(self)@
                && r == Err::<usize, DataError>(DataError::AddressOutOfBounds),
    {
        if left < self.values.len() && right < self.values.len() {
            Ok(self.push_value(Value::Concatenation(left, right)))
        } else {
            Err(DataError::AddressOutOfBounds)
        }
    }

    /// Begins building a CharList; any earlier unfinished CharList builder is
    /// discarded.
    pub fn start_char_list(&mut self) -> (r: Result<(), DataError>)
        ensures
            final(self)@.values == old(self)@.values,
            final(self)@.char_list == Some(Seq::<char>::empty()),
            final(self)@.byte_list == old(self)@.byte_list,
            final(self)@.list_stack == old(self)@.list_stack,
            r == Ok::<(), DataError>(()),
    {
        self.char_active = true;
        self.char_buf = Vec::new();
        Ok(())
    }

    /// Appends one character to the CharList under construction.
    pub fn add_to_char_list(&mut self, c: char) -> (r: Result<(), DataError>)
        ensures
            r is Ok <==> old(self)@.char_list is Some,
            old(self)@.char_list matches Some(s) ==> ({
                &&& r == Ok::<(), DataError>(())
                &&& final(self)@.char_list == Some(s.push(c))
                &&& final(self)@.values == old(self)@.values
                &&& final(self)@.byte_list == old(self)@.byte_list
                &&& final(self)@.list_stack == old(self)@.list_stack
            }),
            old(self)@.char_list is None ==> final(self)@ == old(self)@
                && r == Err::<(), DataError>(DataError::NoListInProgress),
    {
        if self.char_active {
            self.char_buf.push(c);
            Ok(())
        } else {
            Err(DataError::NoListInProgress)
        }
    }

    /// Finishes the CharList under construction, appends it as one value and
    /// returns its address.
    pub fn end_char_list(&mut self) -> (r: Result<usize, DataError>)
        ensures
            r is Ok <==> old(self)@.char_list is Some,
            old(self)@.char_list matches Some(s) ==> ({
                &&& (r matches Ok(addr) && addr == old(self)@.values.len())
                &&& final(self)@.values.len() == old(self)@.values.len() + 1
                &&& old(self)@.values.is_prefix_of(final(self)@.values)
                &&& (final(self)@.values.last() matches Value::CharList(cs) && cs@ == s)
                &&& final(self)@.char_list is None
                &&& final(self)@.byte_list == old(self)@.byte_list
                &&& final(self)@.list_stack == old(self)@.list_stack
            }),
            old(self)@.char_list is None ==> final(self)@ == old(self)@
                && r == Err::<usize, DataError>(DataError::NoListInProgress),
    {
        if self.char_active {
            let mut buf: Vec<char> = Vec::new();
            core::mem::swap(&mut buf, &mut self.char_buf);
            self.char_active = false;
            let addr = self.values.len();
            self.values.push(Value::CharList(buf));
            Ok(addr)
        } else {
            Err(DataError::NoListInProgress)
        }
    }

    /// Begins building a ByteList; any earlier unfinished ByteList builder is
    /// discarded.
    pub fn start_byte_list(&mut self) -> (r: Result<(), DataError>)
        ensures
            final(self)@.values == old(self)@.values,
            final(self)@.byte_list == Some(Seq::<u8>::empty()),
            final(self)@.char_list == old(self)@.char_list,
            final(self)@.list_stack == old(self)@.list_stack,
            r == Ok::<(), DataError>(()),
    {
        self.byte_active = true;
        self.byte_buf = Vec::new();
        Ok(())
    }

    /// Appends one byte to the ByteList under construction.
    pub fn add_to_byte_list(&mut self, b: u8) -> (r: Result<(), DataError>)
        ensures
            r is Ok <==> old(self)@.byte_list is Some,
            old(self)@.byte_list matches Some(s) ==> ({
                &&& r == Ok::<(), DataError>(())
                &&& final(self)@.byte_list == Some(s.push(b))
                &&& final(self)@.values == old(self)@.values
                &&& final(self)@.char_list == old(self)@.char_list
                &&& final(self)@.list_stack == old(self)@.list_stack
            }),
            old(self)@.byte_list is None ==> final(self)@ == old(self)@
                && r == Err::<(), DataError>(DataError::NoListInProgress),
    {
        if self.byte_active {
            self.byte_buf.push(b);
            Ok(())
        } else {
            Err(DataError::NoListInProgress)
        }
    }

    /// Finishes the ByteList under construction, appends it as one value and
    /// returns its address.
    pub fn end_byte_list(&mut self) -> (r: Result<usize, DataError>)
        ensures
            r is Ok <==> old(self)@.byte_list is Some,
            old(self)@.byte_list matches Some(s) ==> ({
                &&& (r matches Ok(addr) && addr == old(self)@.values.len())
                &&& final(self)@.values.len() == old(self)@.values.len() + 1
                &&& old(self)@.values.is_prefix_of(final(self)@.values)
                &&& (final(self)@.values.last() matches Value::ByteList(bs) && bs@ == s)
                &&& final(self)@.byte_list is None
                &&& final(self)@.char_list == old(self)@.char_list
                &&& final(self)@.list_stack == old(self)@.list_stack
            }),
            old(self)@.byte_list is None ==> final(self)@ == old(self)@
                && r == Err::<usize, DataError>(DataError::NoListInProgress),
    {
        if self.byte_active {
            let mut buf: Vec<u8> = Vec::new();
            core::mem::swap(&mut buf, &mut self.byte_buf);
            self.byte_active = false;
            let addr = self.values.len();
            self.values.push(Value::ByteList(buf));
            Ok(addr)
        } else {
            Err(DataError::NoListInProgress)
        }
    }

    /// Begins building a List. Builders nest: a list item that is itself a
    /// list may be built while an outer list is under construction.
    pub fn start_list(&mut self, _len: usize) -> (r: Result<(), DataError>)
        ensures
            final(self)@.values == old(self)@.values,
            final(self)@.char_list == old(self)@.char_list,
            final(self)@.byte_list == old(self)@.byte_list,
            final(self)@.list_stack == old(self)@.list_stack.push(
                (Seq::<usize>::empty(), Seq::<usize>::empty()),
            ),
            r == Ok::<(), DataError>(()),
    {
        self.list_stack.push((Vec::new(), Vec::new()));
        proof {
            assert(final(self)@.list_stack =~= old(self)@.list_stack.push(
                (Seq::<usize>::empty(), Seq::<usize>::empty()),
            ));
        }
        Ok(())
    }

    /// Appends one already-stored address to the List under construction,
    /// also recording it as an association when the flag says so.
    pub fn add_to_list(&mut self, addr: usize, is_associative: bool) -> (r: Result<(), DataError>)
        ensures
            r is Ok <==> (old(self)@.list_stack.len() > 0 && addr < old(self)@.values.len()),
            r is Ok ==> ({
                let b = old(self)@.list_stack.last();
                &&& final(self)@.list_stack == old(self)@.list_stack.update(
                    old(self)@.list_stack.len() - 1,
                    (b.0.push(addr), if is_associative { b.1.push(addr) } else { b.1 }),
                )
                &&& final(self)@.values == old(self)@.values
                &&& final(self)@.char_list == old(self)@.char_list
                &&& final(self)@.byte_list == old(self)@.byte_list
            }),
            old(self)@.list_stack.len() == 0 ==> final(self)@ == old(self)@
                && r == Err::<(), DataError>(DataError::NoListInProgress),
            old(self)@.list_stack.len() > 0 && addr >= old(self)@.values.len()
                ==> final(self)@ == old(self)@
                && r == Err::<(), DataError>(DataError::AddressOutOfBounds),
    {
        match self.list_stack.pop() {
            None => Err(DataError::NoListInProgress),
            Some(mut b) => {
                if addr < self.values.len() {
                    b.0.push(addr);
                    if is_associative {
                        b.1.push(addr);
                    }
                    self.list_stack.push(b);
                    proof {
                        let bv = old(self)@.list_stack.last();
                        assert(final(self)@.list_stack =~= old(self)@.list_stack.update(
                            old(self)@.list_stack.len() - 1,
                            (bv.0.push(addr), if is_associative { bv.1.push(addr) } else { bv.1 }),
                        ));
                    }
                    Ok(())
                } else {
                    self.list_stack.push(b);
                    proof {
                        assert(final(self)@.list_stack =~= old(self)@.list_stack);
                        assert(final(self)@ =~= old(self)@);
                    }
                    Err(DataError::AddressOutOfBounds)
                }
            },
        }
    }

    /// Finishes the innermost List under construction, appends it as one
    /// value and returns its address.
    pub fn end_list(&mut self) -> (r: Result<usize, DataError>)
        ensures
            r is Ok <==> old(self)@.list_stack.len() > 0,
            old(self)@.list_stack.len() > 0 ==> ({
                let b = old(self)@.list_stack.last();
                &&& (r matches Ok(addr) && addr == old(self)@.values.len())
                &&& final(self)@.values.len() == old(self)@.values.len() + 1
                &&& old(self)@.values.is_prefix_of(final(self)@.values)
                &&& (final(self)@.values.last() matches Value::List(items, assocs)
                    && items@ == b.0 && assocs@ == b.1)
                &&& final(self)@.list_stack == old(self)@.list_stack.drop_last()
                &&& final(self)@.char_list == old(self)@.char_list
                &&& final(self)@.byte_list == old(self)@.byte_list
            }),
            old(self)@.list_stack.len() == 0 ==> final(self)@ == old(self)@
                && r == Err::<usize, DataError>(DataError::NoListInProgress),
    {
        match self.list_stack.pop() {
            None => Err(DataError::NoListInProgress),
            Some(b) => {
                let addr = self.values.len();
                self.values.push(Value::List(b.0, b.1));
                proof {
                    assert(final(self)@.list_stack =~= old(self)@.list_stack.drop_last());
                }
                Ok(addr)
            },
        }
    }

    /// The association address at an index of the List at an address.
    pub fn get_list_association(&self, addr: usize, item_index: usize) -> (r: Result<usize, DataError>)
        ensures
            r is Ok <==> (addr < self@.values.len() && self@.values[addr as int] is List
                && item_index < self@.values[addr as int]->List_1@.len()),
            r matches Ok(item) ==> item == self@.values[addr as int]->List_1@[item_index as int],
    {
        if addr < self.values.len() {
            match &self.values[addr] {
                Value::List(_, assocs) => {
                    if item_index < assocs.len() {
                        Ok(assocs[item_index])
                    } else {
                        Err(DataError::AddressOutOfBounds)
                    }
                },
                _ => Err(DataError::WrongKind),
            }
        } else {
            Err(DataError::AddressOutOfBounds)
        }
    }
}

} // verus!

use vstd::prelude::*;

verus! {

/// The error kind a store operation reports: a read of an absent address, a
/// read through the wrong kind, or a write that names an address the store
/// does not hold.
#[derive(Clone, Copy, Debug, PartialEq, Eq)]
pub enum DataError {
    /// The address names no value in the store.
    AddressOutOfBounds,
    /// The value at the address is not of the kind the accessor reads.
    WrongKind,
    /// A list operation was made with no list under construction.
    NoListInProgress,
}

/// The tag identifying which variant a stored value is.
#[derive(Clone, Copy, Debug, PartialEq, Eq, Structural)]
pub enum Kind {
    Invalid,
    Custom,
    Unit,
    True,
    False,
    Number,
    Type,
    Char,
    CharList,
    Byte,
    ByteList,
    Symbol,
    Pair,
    Range,
    Concatenation,
    Slice,
    List,
    Expression,
    External,
}

/// One tagged value of the heap. Composite variants hold addresses into the
/// same heap; a list holds its item addresses and, separately, the addresses
/// of the items that were flagged as associations when it was built.
#[derive(Debug)]
pub enum Value<C> {
    Invalid,
    Custom(C),
    Unit,
    True,
    False,
    Number(i64),
    Type(Kind),
    Char(char),
    CharList(Vec<char>),
    Byte(u8),
    ByteList(Vec<u8>),
    Symbol(u64),
    Pair(usize, usize),
    Range(usize, usize),
    Concatenation(usize, usize),
    Slice(usize, usize),
    List(Vec<usize>, Vec<usize>),
    Expression(usize),
    External(usize),
}

/// Relies on String::push: appends one character at the end of the string.
#[verifier::external_body]
fn push_char(s: &mut String, c: char)
    ensures
        final(s)@ == old(s)@.push(c),
{
    s.push(c);
}

impl<C> Value<C> {
    /// The tag of this value.
    pub fn kind(&self) -> (r: Kind)
        ensures
            r == kind_of(*self),
    {
        match self {
            Value::Invalid => Kind::Invalid,
            Value::Custom(_) => Kind::Custom,
            Value::Unit => Kind::Unit,
            Value::True => Kind::True,
            Value::False => Kind::False,
            Value::Number(_) => Kind::Number,
            Value::Type(_) => Kind::Type,
            Value::Char(_) => Kind::Char,
            Value::CharList(_) => Kind::CharList,
            Value::Byte(_) => Kind::Byte,
            Value::ByteList(_) => Kind::ByteList,
            Value::Symbol(_) => Kind::Symbol,
            Value::Pair(_, _) => Kind::Pair,
            Value::Range(_, _) => Kind::Range,
            Value::Concatenation(_, _) => Kind::Concatenation,
            Value::Slice(_, _) => Kind::Slice,
            Value::List(_, _) => Kind::List,
            Value::Expression(_) => Kind::Expression,
            Value::External(_) => Kind::External,
        }
    }

    /// True when this value is the Unit value.
    pub fn is_unit(&self) -> (r: bool)
        ensures
            r == (*self is Unit),
    {
        matches!(self, Value::Unit)
    }

    /// True when this value is the True constant.
    pub fn is_true(&self) -> (r: bool)
        ensures
            r == (*self is True),
    {
        matches!(self, Value::True)
    }

    /// True when this value is the False constant.
    pub fn is_false(&self) -> (r: bool)
        ensures
            r == (*self is False),
    {
        matches!(self, Value::False)
    }

    /// The numeric payload, if this value is a Number.
    pub fn as_number(&self) -> (r: Result<i64, DataError>)
        ensures
            r is Ok <==> *self is Number,
            r matches Ok(n) ==> *self == Value::<C>::Number(n),
            r is Err ==> r == Err::<i64, DataError>(DataError::WrongKind),
    {
        match self {
            Value::Number(n) => Ok(*n),
            _ => Err(DataError::WrongKind),
        }
    }

    /// The kind tag payload, if this value is a Type value.
    pub fn as_type(&self) -> (r: Result<Kind, DataError>)
        ensures
            r is Ok <==> *self is Type,
            r matches Ok(k) ==> *self == Value::<C>::Type(k),
            r is Err ==> r == Err::<Kind, DataError>(DataError::WrongKind),
    {
        match self {
            Value::Type(k) => Ok(*k),
            _ => Err(DataError::WrongKind),
        }
    }

    /// The character payload, if this value is a Char.
    pub fn as_char(&self) -> (r: Result<char, DataError>)
        ensures
            r is Ok <==> *self is Char,
            r matches Ok(c) ==> *self == Value::<C>::Char(c),
            r is Err ==> r == Err::<char, DataError>(DataError::WrongKind),
    {
        match self {
            Value::Char(c) => Ok(*c),
            _ => Err(DataError::WrongKind),
        }
    }

    /// The byte payload, if this value is a Byte.
    pub fn as_byte(&self) -> (r: Result<u8, DataError>)
        ensures
            r is Ok <==> *self is Byte,
            r matches Ok(b) ==> *self == Value::<C>::Byte(b),
            r is Err ==> r == Err::<u8, DataError>(DataError::WrongKind),
    {
        match self {
            Value::Byte(b) => Ok(*b),
            _ => Err(DataError::WrongKind),
        }
    }

    /// The symbol id, if this value is a Symbol.
    pub fn as_symbol(&self) -> (r: Result<u64, DataError>)
        ensures
            r is Ok <==> *self is Symbol,
            r matches Ok(sym) ==> *self == Value::<C>::Symbol(sym),
            r is Err ==> r == Err::<u64, DataError>(DataError::WrongKind),
    {
        match self {
            Value::Symbol(sym) => Ok(*sym),
            _ => Err(DataError::WrongKind),
        }
    }

    /// The jump-table handle, if this value is an Expression.
    pub fn as_expression(&self) -> (r: Result<usize, DataError>)
        ensures
            r is Ok <==> *self is Expression,
            r matches Ok(x) ==> *self == Value::<C>::Expression(x),
            r is Err ==> r == Err::<usize, DataError>(DataError::WrongKind),
    {
        match self {
            Value::Expression(x) => Ok(*x),
            _ => Err(DataError::WrongKind),
        }
    }

    /// The registry handle, if this value is an External.
    pub fn as_external(&self) -> (r: Result<usize, DataError>)
        ensures
            r is Ok <==> *self is External,
            r matches Ok(x) ==> *self == Value::<C>::External(x),
            r is Err ==> r == Err::<usize, DataError>(DataError::WrongKind),
    {
        match self {
            Value::External(x) => Ok(*x),
            _ => Err(DataError::WrongKind),
        }
    }

    /// The characters as one string, if this value is a CharList.
    pub fn as_char_list(&self) -> (r: Result<String, DataError>)
        ensures
            r is Ok <==> *self is CharList,
            r matches Ok(cs) ==> cs@ == self->CharList_0@,
            r is Err ==> r == Err::<String, DataError>(DataError::WrongKind),
    {
        match self {
            Value::CharList(cs) => {
                let mut out = String::new();
                let mut i: usize = 0;
                while i < cs.len()
                    invariant
                        i <= cs.len(),
                        out@ == cs@.take(i as int),
                    decreases cs.len() - i,
                {
                    push_char(&mut out, cs[i]);
                    proof {
                        assert(cs@.take(i as int).push(cs@[i as int]) =~= cs@.take(i + 1));
                    }
                    i = i + 1;
                }
                proof {
                    assert(cs@.take(cs@.len() as int) =~= cs@);
                }
                Ok(out)
            },
            _ => Err(DataError::WrongKind),
        }
    }

    /// The bytes in order, if this value is a ByteList.
    pub fn as_byte_list(&self) -> (r: Result<Vec<u8>, DataError>)
        ensures
            r is Ok <==> *self is ByteList,
            r matches Ok(bs) ==> bs@ == self->ByteList_0@,
            r is Err ==> r == Err::<Vec<u8>, DataError>(DataError::WrongKind),
    {
        match self {
            Value::ByteList(bs) => {
                let mut out: Vec<u8> = Vec::new();
                let mut i: usize = 0;
                while i < bs.len()
                    invariant
                        i <= bs.len(),
                        out@ == bs@.take(i as int),
                    decreases bs.len() - i,
                {
                    out.push(bs[i]);
                    proof {
                        assert(bs@.take(i as int).push(bs@[i as int]) =~= bs@.take(i + 1));
                    }
                    i = i + 1;
                }
                proof {
                    assert(bs@.take(bs@.len() as int) =~= bs@);
                }
                Ok(out)
            },
            _ => Err(DataError::WrongKind),
        }
    }

    /// The two operand addresses, if this value is a Pair.
    pub fn as_pair(&self) -> (r: Result<(usize, usize), DataError>)
        ensures
            r is Ok <==> *self is Pair,
            r matches Ok(p) ==> *self == Value::<C>::Pair(p.0, p.1),
            r is Err ==> r == Err::<(usize, usize), DataError>(DataError::WrongKind),
    {
        match self {
            Value::Pair(l, rt) => Ok((*l, *rt)),
            _ => Err(DataError::WrongKind),
        }
    }

    /// The start and end addresses, if this value is a Range.
    pub fn as_range(&self) -> (r: Result<(usize, usize), DataError>)
        ensures
            r is Ok <==> *self is Range,
            r matches Ok(p) ==> *self == Value::<C>::Range(p.0, p.1),
            r is Err ==> r == Err::<(usize, usize), DataError>(DataError::WrongKind),
    {
        match self {
            Value::Range(l, rt) => Ok((*l, *rt)),
            _ => Err(DataError::WrongKind),
        }
    }

    /// The current and next operand addresses, if this value is a
    /// Concatenation.
    pub fn as_concatenation(&self) -> (r: Result<(usize, usize), DataError>)
        ensures
            r is Ok <==> *self is Concatenation,
            r matches Ok(p) ==> *self == Value::<C>::Concatenation(p.0, p.1),
            r is Err ==> r == Err::<(usize, usize), DataError>(DataError::WrongKind),
    {
        match self {
            Value::Concatenation(l, rt) => Ok((*l, *rt)),
            _ => Err(DataError::WrongKind),
        }
    }

    /// The value and range addresses, if this value is a Slice.
    pub fn as_slice(&self) -> (r: Result<(usize, usize), DataError>)
        ensures
            r is Ok <==> *self is Slice,
            r matches Ok(p) ==> *self == Value::<C>::Slice(p.0, p.1),
            r is Err ==> r == Err::<(usize, usize), DataError>(DataError::WrongKind),
    {
        match self {
            Value::Slice(l, rt) => Ok((*l, *rt)),
            _ => Err(DataError::WrongKind),
        }
    }

    /// The item addresses and the association addresses, if this value is a
    /// List.
    pub fn as_list(&self) -> (r: Result<(Vec<usize>, Vec<usize>), DataError>)
        ensures
            r is Ok <==> *self is List,
            r matches Ok(p) ==> p.0@ == self->List_0@ && p.1@ == self->List_1@,
            r is Err ==> r == Err::<(Vec<usize>, Vec<usize>), DataError>(DataError::WrongKind),
    {
        match self {
            Value::List(items, assocs) => {
                let mut out_items: Vec<usize> = Vec::new();
                let mut i: usize = 0;
                while i < items.len()
                    invariant
                        i <= items.len(),
                        out_items@ == items@.take(i as int),
                    decreases items.len() - i,
                {
                    out_items.push(items[i]);
                    proof {
                        assert(items@.take(i as int).push(items@[i as int]) =~= items@.take(i + 1));
                    }
                    i = i + 1;
                }
                let mut out_assocs: Vec<usize> = Vec::new();
                let mut j: usize = 0;
                while j < assocs.len()
                    invariant
                        j <= assocs.len(),
                        out_assocs@ == assocs@.take(j as int),
                    decreases assocs.len() - j,
                {
                    out_assocs.push(assocs[j]);
                    proof {
                        assert(assocs@.take(j as int).push(assocs@[j as int]) =~= assocs@.take(
                            j + 1,
                        ));
                    }
                    j = j + 1;
                }
                proof {
                    assert(items@.take(items@.len() as int) =~= items@);
                    assert(assocs@.take(assocs@.len() as int) =~= assocs@);
                }
                Ok((out_items, out_assocs))
            },
            _ => Err(DataError::WrongKind),
        }
    }
}

/// The kind tag of a value.
pub open spec fn kind_of<C>(v: Value<C>) -> Kind {
    match v {
        Value::Invalid => Kind::Invalid,
        Value::Custom(_) => Kind::Custom,
        Value::Unit => Kind::Unit,
        Value::True => Kind::True,
        Value::False => Kind::False,
        Value::Number(_) => Kind::Number,
        Value::Type(_) => Kind::Type,
        Value::Char(_) => Kind::Char,
        Value::CharList(_) => Kind::CharList,
        Value::Byte(_) => Kind::Byte,
        Value::ByteList(_) => Kind::ByteList,
        Value::Symbol(_) => Kind::Symbol,
        Value::Pair(_, _) => Kind::Pair,
        Value::Range(_, _) => Kind::Range,
        Value::Concatenation(_, _) => Kind::Concatenation,
        Value::Slice(_, _) => Kind::Slice,
        Value::List(_, _) => Kind::List,
        Value::Expression(_) => Kind::Expression,
        Value::External(_) => Kind::External,
    }
}

} // verus!

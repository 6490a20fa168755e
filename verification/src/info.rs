use vstd::prelude::*;

use crate::store::Data;

verus! {

/// Naming and formatting hints that a host environment can supply when
/// values are shown to people. Every hook is optional: the defaults know
/// nothing and decline by returning None, so a formatter that consults an
/// un-overridden hook falls back to its own rendering.
pub trait DataInfoProvider<C> {
    /// A human-readable name for a symbol id, if one is known.
    fn get_symbol_name(&self, _sym: u64, _data: &Data<C>) -> (r: Option<String>)
        default_ensures
            r is None,
    {
        None
    }

    /// A human-readable name for an address, if one is known.
    fn get_address_name(&self, _addr: usize, _data: &Data<C>) -> (r: Option<String>)
        default_ensures
            r is None,
    {
        None
    }

    /// A rendering of the data a symbol refers to, if the provider has one.
    fn format_symbol_data(&self, _sym: u64, _data: &Data<C>) -> (r: Option<String>)
        default_ensures
            r is None,
    {
        None
    }

    /// A rendering of a Custom value, if the provider understands it.
    fn format_custom_data(&self, _addr: usize, _data: &Data<C>) -> (r: Option<String>)
        default_ensures
            r is None,
    {
        None
    }
}

} // verus!

//! A plugin configuration passed through as given; its messages stay raw bytes.
use crate::plugin::DecodingPlugin;
use std::collections::HashMap;
use vstd::prelude::*;

verus! {

/// A plugin named by the caller, started with the caller's options.
#[derive(Clone)]
pub struct Raw {
    name: String,
    options: HashMap<String, String>,
}

impl View for Raw {
    type V = (Seq<char>, Map<String, String>);

    /// The plugin's name and its options.
    closed spec fn view(&self) -> (Seq<char>, Map<String, String>) {
        (self.name@, self.options@)
    }
}

impl Raw {
    /// A configuration with the given name and options, kept as they are.
    pub fn new(name: String, options: HashMap<String, String>) -> (r: Self)
        ensures
            r@ == (name@, options@),
    {
        Raw { name, options }
    }
}

impl DecodingPlugin for Raw {
    fn name(&self) -> (r: &str)
        ensures
            r@ == self@.0,
    {
        self.name.as_str()
    }

    fn options(&self) -> (r: HashMap<String, String>)
        ensures
            r@ == self@.1,
    {
        self.options.clone()
    }
}

} // verus!

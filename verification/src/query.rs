//! The caller-facing query builder: an opaque holder of CQL text.

use vstd::prelude::*;
use vstd::string::StringExecFns;

verus! {

/// A CQL query, held as opaque text; the driver never interprets it.
pub struct Query {
    query_text: String,
}

impl View for Query {
    type V = Seq<char>;

    closed spec fn view(&self) -> Seq<char> {
        self.query_text@
    }
}

impl Query {
    /// Wraps the given CQL text in a query.
    pub fn new(query_text: &str) -> (q: Query)
        ensures
            q@ == query_text@,
    {
        Query { query_text: String::from_str(query_text) }
    }

    /// The query's CQL text.
    pub fn get_query_text(&self) -> (r: String)
        ensures
            r@ == self@,
    {
        self.query_text.clone()
    }
}

} // verus!

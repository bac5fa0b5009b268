//! The server-side output plugin to request, and the options it is started with.
use std::collections::HashMap;
use vstd::prelude::*;
use vstd::std_specs::hash::{builds_valid_hashers, obeys_key_model};
use vstd::string::StringExecFns;

verus! {

/// Publication names joined with `,`, with no escaping.
pub open spec fn joined(names: Seq<Seq<char>>) -> Seq<char>
    decreases names.len(),
{
    if names.len() == 0 {
        Seq::empty()
    } else if names.len() == 1 {
        names[0]
    } else {
        joined(names.drop_last()) + seq![','] + names.last()
    }
}

/// Whether a `HashMap` of this crate's key type behaves as a map of its keys.
pub open spec fn string_maps_are_modelled() -> bool {
    obeys_key_model::<String>() && builds_valid_hashers::<std::hash::RandomState>()
}

/// Whether `m` maps exactly `proto_version` to `1` and `publication_names` to `pubs`.
pub open spec fn pgoutput_options(m: Map<String, String>, pubs: Seq<char>) -> bool {
    &&& exists|k: String| #[trigger] m.contains_key(k) && k@ == "proto_version"@ && m[k]@ == "1"@
    &&& exists|k: String| #[trigger] m.contains_key(k) && k@ == "publication_names"@ && m[k]@ == pubs
    &&& forall|k: String| #[trigger]
        m.contains_key(k) ==> (k@ == "proto_version"@ && m[k]@ == "1"@) || (k@
            == "publication_names"@ && m[k]@ == pubs)
}

/// A plugin configuration: the plugin's name and the options to start it with.
pub trait DecodingPlugin {
    /// The server-side plugin identifier.
    fn name(&self) -> &str;

    /// The options embedded in the stream-start command.
    fn options(&self) -> HashMap<String, String>;
}

/// The `pgoutput` plugin, reading the given publications.
#[derive(Clone)]
pub struct PgOutput {
    publications: String,
}

impl View for PgOutput {
    type V = Seq<char>;

    /// The publication names as sent, joined with `,`.
    closed spec fn view(&self) -> Seq<char> {
        self.publications@
    }
}

/// Joins the names with `,`.
fn join_names(names: &Vec<String>) -> (r: String)
    ensures
        r@ == joined(names@.map_values(|n: String| n@)),
{
    let mut out = String::new();
    let mut i: usize = 0;
    while i < names.len()
        invariant
            i <= names@.len(),
            out@ == joined(names@.take(i as int).map_values(|n: String| n@)),
        decreases names@.len() - i,
    {
        let ghost prev = names@.take(i as int).map_values(|n: String| n@);
        let ghost next = names@.take(i + 1).map_values(|n: String| n@);
        proof {
            assert(next.drop_last() =~= prev);
            assert(next.last() == names@[i as int]@);
        }
        if i > 0 {
            proof {
                reveal_strlit(",");
            }
            out.append(",");
        }
        out.append(names[i].as_str());
        proof {
            if i == 0 {
                assert(prev =~= Seq::<Seq<char>>::empty());
                assert(out@ =~= next[0]);
            } else {
                assert(out@ =~= joined(prev) + seq![','] + next.last());
            }
        }
        i = i + 1;
    }
    proof {
        assert(names@.take(names@.len() as int) =~= names@);
    }
    out
}

impl PgOutput {
    /// A configuration reading the given publications.
    pub fn new(publications: Vec<String>) -> (r: Self)
        ensures
            r@ == joined(publications@.map_values(|n: String| n@)),
    {
        PgOutput { publications: join_names(&publications) }
    }
}

impl DecodingPlugin for PgOutput {
    fn name(&self) -> (r: &str)
        ensures
            r@ == "pgoutput"@,
    {
        "pgoutput"
    }

    /// The start options: protocol version `1` and the joined publication names.
    fn options(&self) -> (r: HashMap<String, String>)
        ensures
            string_maps_are_modelled() ==> pgoutput_options(r@, self@),
    {
        let mut opts: HashMap<String, String> = HashMap::new();
        let k1 = String::from_str("proto_version");
        let v1 = String::from_str("1");
        let k2 = String::from_str("publication_names");
        let v2 = self.publications.clone();
        let ghost g1 = k1;
        let ghost g2 = k2;
        opts.insert(k1, v1);
        opts.insert(k2, v2);
        proof {
            reveal_strlit("proto_version");
            reveal_strlit("publication_names");
            if string_maps_are_modelled() {
                assert(g1@ != g2@) by {
                    assert(g1@[1] != g2@[1]);
                }
                assert(opts@.contains_key(g1));
                assert(opts@.contains_key(g2));
            }
        }
        opts
    }
}

} // verus!

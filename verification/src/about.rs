//! The version line of the library: its version and the optional features it
//! was built with.
use vstd::prelude::*;
use vstd::string::*;
use crate::text::{joined, lemma_joined_push, quoted};

verus! {

/// The names of the enabled features, in a fixed order.
pub open spec fn feature_names(tracing: bool, runtime_tokio: bool, runtime_async_std: bool) -> Seq<
    Seq<char>,
> {
    (if tracing { seq!["tracing"@] } else { Seq::empty() }) + (if runtime_tokio {
        seq!["runtime-tokio"@]
    } else {
        Seq::empty()
    }) + (if runtime_async_std { seq!["runtime-async-std"@] } else { Seq::empty() })
}

/// A list of names as Rust's debug output writes it: `["a", "b"]`.
pub open spec fn name_list(names: Seq<Seq<char>>) -> Seq<char> {
    seq!['['] + joined(Seq::new(names.len(), |i: int| quoted(names[i])), seq![',', ' ']) + seq![']']
}

/// The version line: `version: <version>, features: [..]`.
pub open spec fn version_text(pkg_version: Seq<char>, features: Seq<Seq<char>>) -> Seq<char> {
    "version: "@ + pkg_version + ", features: "@ + name_list(features)
}

/// Writes `names` as a list of quoted names. A name is written as it is,
/// without escaping.
fn write_name_list(names: &Vec<String>) -> (res: String)
    ensures
        res@ == name_list(names.deep_view()),
{
    let ghost items = Seq::new(names@.len(), |i: int| quoted(names.deep_view()[i]));
    let mut out = String::from_str("[");
    proof {
        reveal_strlit("[");
    }
    let mut i: usize = 0;
    while i < names.len()
        invariant
            i <= names@.len(),
            items == Seq::new(names@.len(), |k: int| quoted(names.deep_view()[k])),
            out@ == seq!['['] + joined(items.take(i as int), seq![',', ' ']),
        decreases names@.len() - i,
    {
        let ghost before = out@;
        proof {
            reveal_strlit(", ");
            reveal_strlit("\"");
        }
        if i > 0 {
            out.append(", ");
        }
        out.append("\"");
        out.append(names[i].as_str());
        out.append("\"");
        proof {
            assert(items[i as int] == quoted(names@[i as int]@));
            assert(items.take(i + 1) =~= items.take(i as int).push(items[i as int]));
            lemma_joined_push(items.take(i as int), seq![',', ' '], items[i as int]);
            if i > 0 {
                assert(out@ =~= before + seq![',', ' '] + items[i as int]);
            } else {
                assert(out@ =~= before + items[i as int]);
            }
        }
        i = i + 1;
    }
    out.append("]");
    proof {
        reveal_strlit("]");
        assert(items.take(names@.len() as int) =~= items);
        assert(out@ =~= name_list(names.deep_view()));
    }
    out
}

/// The version line for version `pkg_version` built with the given optional
/// features, such as `version: 0.1.0, features: ["runtime-tokio"]`.
pub fn version(pkg_version: &str, tracing: bool, runtime_tokio: bool, runtime_async_std: bool) -> (res:
    String)
    ensures
        res@ == version_text(pkg_version@, feature_names(tracing, runtime_tokio, runtime_async_std)),
{
    let mut features: Vec<String> = Vec::new();
    if tracing {
        features.push(String::from_str("tracing"));
    }
    if runtime_tokio {
        features.push(String::from_str("runtime-tokio"));
    }
    if runtime_async_std {
        features.push(String::from_str("runtime-async-std"));
    }
    assert(features.deep_view() =~= feature_names(tracing, runtime_tokio, runtime_async_std));
    let list = write_name_list(&features);
    let mut out = String::from_str("version: ");
    out.append(pkg_version);
    out.append(", features: ");
    out.append(list.as_str());
    out
}

} // verus!

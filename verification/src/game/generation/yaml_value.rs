//! A parsed YAML reply as the library sees it: strings, sequences, the values of mappings,
//! and every other value as an opaque leaf.

use vstd::prelude::*;

use crate::game::generation::generators::collapse_whitespace;
use crate::text::collapse_ws;

verus! {

/// A YAML value: a string, a sequence, a mapping (its values, in order; the keys stay with
/// the caller), or another value (null, boolean, number, tagged) that is left as it is.
#[derive(Debug)]
pub enum YamlValue {
    Str(String),
    List(Vec<YamlValue>),
    Mapping(Vec<YamlValue>),
    Other,
}

/// A YAML value seen through the contents of its strings.
pub enum YamlView {
    Str(Seq<char>),
    List(Seq<YamlView>),
    Mapping(Seq<YamlView>),
    Other,
}

pub open spec fn yaml_view(v: YamlValue) -> YamlView
    decreases v,
{
    match v {
        YamlValue::Str(s) => YamlView::Str(s@),
        YamlValue::List(items) => YamlView::List(Seq::new(items@.len(), |i: int| if 0 <= i < items@.len() { yaml_view(items@[i]) } else { YamlView::Other })),
        YamlValue::Mapping(items) => YamlView::Mapping(Seq::new(items@.len(), |i: int| if 0 <= i < items@.len() { yaml_view(items@[i]) } else { YamlView::Other })),
        YamlValue::Other => YamlView::Other,
    }
}


/// The value with the white space of every string collapsed (runs of white space become
/// one space, none at either end), through sequences and mapping values alike.
pub open spec fn normalized(v: YamlView) -> YamlView
    decreases v,
{
    match v {
        YamlView::Str(s) => YamlView::Str(collapse_ws(s)),
        YamlView::List(items) => YamlView::List(Seq::new(items.len(), |i: int| if 0 <= i < items.len() { normalized(items[i]) } else { YamlView::Other })),
        YamlView::Mapping(items) => YamlView::Mapping(Seq::new(items.len(), |i: int| if 0 <= i < items.len() { normalized(items[i]) } else { YamlView::Other })),
        YamlView::Other => YamlView::Other,
    }
}

fn normalized_value(v: YamlValue) -> (r: YamlValue)
    ensures
        yaml_view(r) == normalized(yaml_view(v)),
    decreases v,
{
    match v {
        YamlValue::Str(s) => YamlValue::Str(collapse_whitespace(s.as_str())),
        YamlValue::List(items) => {
            let out = normalized_values(items);
            proof {
                assert(yaml_view(YamlValue::List(out))->List_0 =~= normalized(yaml_view(v))->List_0);
            }
            YamlValue::List(out)
        },
        YamlValue::Mapping(items) => {
            let out = normalized_values(items);
            proof {
                assert(yaml_view(YamlValue::Mapping(out))->Mapping_0 =~= normalized(yaml_view(v))->Mapping_0);
            }
            YamlValue::Mapping(out)
        },
        YamlValue::Other => YamlValue::Other,
    }
}

fn normalized_values(items: Vec<YamlValue>) -> (r: Vec<YamlValue>)
    ensures
        r@.len() == items@.len(),
        forall|i: int| 0 <= i < items@.len() ==> yaml_view(#[trigger] r@[i]) == normalized(yaml_view(items@[i])),
    decreases items,
{
    let ghost all = items@;
    let n = items.len();
    let mut rest = items;
    let mut out: Vec<YamlValue> = Vec::new();
    let mut k: usize = 0;
    while rest.len() > 0
        invariant
            all == items@,
            all.len() == n,
            k + rest@.len() == all.len(),
            rest@ == all.subrange(k as int, all.len() as int),
            out@.len() == k,
            forall|i: int| 0 <= i < k ==> yaml_view(#[trigger] out@[i]) == normalized(yaml_view(all[i])),
        decreases rest@.len(),
    {
        let ghost rv = rest@;
        let x = rest.remove(0);
        assert(rest@ =~= rv.drop_first());
        assert(x == all[k as int]);
        proof {
            assert(0 <= k < items@.len());
            assert(decreases_to!(items => items@));
            assert(decreases_to!(items@ => items@[k as int]));
            assert(decreases_to!(items => x));
        }
        let y = normalized_value(x);
        out.push(y);
        k += 1;
    }
    out
}

/// Collapse the white space of every string in a parsed reply, in place.
pub fn normalize_yaml_string_values(value: &mut YamlValue)
    ensures
        yaml_view(*final(value)) == normalized(yaml_view(*old(value))),
{
    let mut v = YamlValue::Other;
    std::mem::swap(&mut v, value);
    *value = normalized_value(v);
}

} // verus!

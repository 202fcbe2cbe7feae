//! What the variants read from a schema, and the operations made of them,
//! carry over from the schema, stated directly over the JSON members.

use vstd::prelude::*;
use crate::idl_processor::spec::{
    spec_param_type, spec_params, spec_path_entry, spec_query_param, spec_required, spec_variant,
};
use crate::idl_processor::variant_info::{ParameterView, VariantView, mark_required, sorted_insert};
use crate::json::{Json, json_array, json_get, json_index, json_object, json_str};

verus! {

/// The description a variant schema gives: its `description` string, or
/// nothing when it has no such member.
pub open spec fn given_description(v: Json) -> Seq<char> {
    match json_get(v, "description"@) {
        Some(d) => match d {
            Json::Str(s) => s@,
            _ => Seq::empty(),
        },
        None => Seq::empty(),
    }
}

/// `k` is one of the strings listed in the `required` array of `pval`.
pub open spec fn listed_required(pval: Json, k: Seq<char>) -> bool {
    match json_index(pval, "required"@) {
        Json::Array(a) => exists|i: int| 0 <= i < a@.len() && json_str(#[trigger] a@[i]) == Some(k),
        _ => false,
    }
}

/// Every variant a schema yields carries that schema's description, the
/// given read-call flag and the given contract tag, whichever kind of
/// variant (enum name, struct with or without parameters) it is.
pub proof fn law_variant_carries_schema(v: Json, read_call: bool, single: bool, tag: Seq<char>)
    requires
        spec_variant(v, read_call, single, tag) is Some,
    ensures
        forall|k: int|
            0 <= k < spec_variant(v, read_call, single, tag).unwrap().len() ==> {
                let r = #[trigger] spec_variant(v, read_call, single, tag).unwrap()[k];
                &&& r.description == given_description(v)
                &&& r.read_call == read_call
                &&& r.contract_tag == tag
            },
{
}

proof fn lemma_sorted_insert_keeps_unrequired(
    s: Seq<(Seq<char>, ParameterView)>,
    k: Seq<char>,
    p: ParameterView,
)
    requires
        forall|j: int| 0 <= j < s.len() ==> !(#[trigger] s[j]).1.required,
        !p.required,
    ensures
        forall|j: int| 0 <= j < sorted_insert(s, k, p).len() ==> !(#[trigger] sorted_insert(s, k, p)[j]).1.required,
    decreases s.len(),
{
    let r = sorted_insert(s, k, p);
    if s.len() > 0 && s[0].0 != k && !crate::text::seq_less(k, s[0].0) {
        let t = s.drop_first();
        assert forall|j: int| 0 <= j < t.len() implies !(#[trigger] t[j]).1.required by {
            assert(t[j] == s[j + 1]);
        }
        lemma_sorted_insert_keeps_unrequired(t, k, p);
        assert forall|j: int| 0 <= j < r.len() implies !(#[trigger] r[j]).1.required by {
            if j > 0 {
                assert(r[j] == sorted_insert(t, k, p)[j - 1]);
            }
        }
    } else if s.len() > 0 && s[0].0 != k {
        assert forall|j: int| 0 <= j < r.len() implies !(#[trigger] r[j]).1.required by {
            if j > 0 {
                assert(r[j] == s[j - 1]);
            }
        }
    }
}

proof fn lemma_params_unrequired(entries: Seq<(String, Json)>, n: int)
    requires
        spec_params(entries, n) is Some,
    ensures
        forall|j: int|
            0 <= j < spec_params(entries, n).unwrap().len() ==> !(#[trigger] spec_params(
                entries,
                n,
            ).unwrap()[j]).1.required,
    decreases n,
{
    if n > 0 {
        lemma_params_unrequired(entries, n - 1);
        let t = spec_param_type(entries[n - 1].1).unwrap();
        lemma_sorted_insert_keeps_unrequired(
            spec_params(entries, n - 1).unwrap(),
            entries[n - 1].0@,
            ParameterView { t: t, required: false },
        );
    }
}

/// The names `spec_required` collects are exactly the strings listed.
proof fn lemma_required_lists_all(pval: Json, k: Seq<char>)
    requires
        spec_required(pval) is Some,
    ensures
        spec_required(pval).unwrap().contains(k) <==> listed_required(pval, k),
{
    let req = spec_required(pval).unwrap();
    match json_index(pval, "required"@) {
        Json::Array(a) => {
            if req.contains(k) {
                let i = choose|i: int| 0 <= i < req.len() && req[i] == k;
                assert(json_str(a@[i]) is Some);
                assert(json_str(a@[i]) == Some(k));
            }
            if listed_required(pval, k) {
                let i = choose|i: int| 0 <= i < a@.len() && json_str(#[trigger] a@[i]) == Some(k);
                assert(req[i] == k);
            }
        },
        _ => {},
    }
}

/// A struct variant's parameters are the members of its parameter object
/// (the variant schema's own `properties` when `single`, else the
/// `properties` of its first member), and a parameter is required exactly
/// when its name is one of the strings listed under `required` of that first
/// member, however many it lists.
pub proof fn law_required_parameters(v: Json, read_call: bool, single: bool, tag: Seq<char>)
    requires
        spec_variant(v, read_call, single, tag) is Some,
        json_get(v, "enum"@) is None,
        json_get(v, "properties"@) is Some,
        json_object(json_get(v, "properties"@).unwrap()) matches Some(entries) && entries.len() > 0 && (
        single || json_object(json_index(entries[0].1, "properties"@)) is Some),
    ensures
        ({
            let entries = json_object(json_get(v, "properties"@).unwrap()).unwrap();
            let r = spec_variant(v, read_call, single, tag).unwrap();
            &&& r.len() == 1
            &&& forall|j: int|
                0 <= j < r[0].parameters.len() ==> ((#[trigger] r[0].parameters[j]).1.required
                    <==> listed_required(entries[0].1, r[0].parameters[j].0))
        }),
{
    let entries = json_object(json_get(v, "properties"@).unwrap()).unwrap();
    let pval = entries[0].1;
    let ie = if single {
        entries
    } else {
        json_object(json_index(pval, "properties"@)).unwrap()
    };
    let params = spec_params(ie, ie.len() as int).unwrap();
    let req = spec_required(pval).unwrap();
    lemma_params_unrequired(ie, ie.len() as int);
    let r = spec_variant(v, read_call, single, tag).unwrap();
    assert(r[0].parameters == mark_required(params, req));
    assert forall|j: int| 0 <= j < r[0].parameters.len() implies ((#[trigger] r[0].parameters[j]).1.required
        <==> listed_required(pval, r[0].parameters[j].0)) by {
        assert(!params[j].1.required);
        lemma_required_lists_all(pval, params[j].0);
    }
}

/// The operation of a path item lists exactly the variant's parameters, in
/// order, whatever the method: each query parameter has the parameter's name
/// and is required exactly when the parameter is; an integer type (`i8` ..
/// `u64`) gives a number, bounded below by zero when unsigned.
pub proof fn law_operation_parameters(v: VariantView)
    ensures
        spec_path_entry(v).operation.parameters.len() == v.parameters.len(),
        forall|j: int|
            0 <= j < v.parameters.len() ==> {
                let q = #[trigger] spec_path_entry(v).operation.parameters[j];
                &&& q.name == v.parameters[j].0
                &&& q.required == v.parameters[j].1.required
            },
{
}

/// The query parameter documenting a parameter has its name, and is
/// required exactly when the parameter is.
pub proof fn law_query_param_required(e: (Seq<char>, ParameterView))
    ensures
        spec_query_param(e).name == e.0,
        spec_query_param(e).required == e.1.required,
        !e.1.required ==> !spec_query_param(e).required,
{
}

} // verus!

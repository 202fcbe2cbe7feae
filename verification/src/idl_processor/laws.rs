//! Properties of the document that hold for every input the processing
//! accepts.

use vstd::prelude::*;
use crate::api_doc::{PathEntryView, ordered_insert_view, view_key_position};
use crate::idl_loader::loaded_idl::LoadedIdl;
use crate::idl_processor::spec::{
    contract_valid, idls_processable, lemma_all_paths_valid, message_valid, spec_all_paths,
    spec_api_doc, spec_contract, spec_insert_variants, spec_message, spec_params, spec_path_entry,
    spec_path_name, spec_variant, spec_variants, spec_variants_of, spec_x_wasm,
};
use crate::wasm_codec::z85_encoding;
use crate::idl_processor::variant_info::{
    ParameterView, VariantView, keys_ascending, lemma_sorted_insert_ascending, mark_required,
};
use crate::json::{Json, json_array, json_get, json_index, json_object, json_str};

verus! {

/// The paths of a path list, in order.
pub open spec fn path_keys(paths: Seq<(Seq<char>, PathEntryView)>) -> Seq<Seq<char>> {
    paths.map_values(|e: (Seq<char>, PathEntryView)| e.0)
}

/// Each path at most once.
pub open spec fn paths_distinct(paths: Seq<(Seq<char>, PathEntryView)>) -> bool {
    forall|i: int, j: int| 0 <= i < j < paths.len() ==> #[trigger] paths[i].0 != #[trigger] paths[j].0
}

/// Each item is the item of the variant it carries, under that variant's path.
pub open spec fn entries_coherent(paths: Seq<(Seq<char>, PathEntryView)>) -> bool {
    forall|i: int|
        0 <= i < paths.len() ==> {
            &&& (#[trigger] paths[i]).0 == spec_path_name(paths[i].1.variant)
            &&& paths[i].1 == spec_path_entry(paths[i].1.variant)
        }
}

proof fn lemma_view_key_position(s: Seq<(Seq<char>, PathEntryView)>, k: Seq<char>, i: int)
    requires
        0 <= i,
    ensures
        view_key_position(s, k, i) matches Some(j) ==> i <= j < s.len() && s[j].0 == k,
        view_key_position(s, k, i) matches Some(j) ==> forall|m: int| i <= m < j ==> s[m].0 != k,
        view_key_position(s, k, i) is None ==> forall|j: int| i <= j < s.len() ==> s[j].0 != k,
    decreases s.len() - i,
{
    if i < s.len() && s[i].0 != k {
        lemma_view_key_position(s, k, i + 1);
    }
}

/// Inserting a path keeps paths distinct and coherent, keeps every path
/// already there, and adds the inserted one.
pub proof fn lemma_insert_path(s: Seq<(Seq<char>, PathEntryView)>, v: VariantView)
    ensures
        path_keys(ordered_insert_view(s, spec_path_name(v), spec_path_entry(v))).contains(spec_path_name(v)),
        forall|k: Seq<char>|
            path_keys(s).contains(k) ==> #[trigger] path_keys(
                ordered_insert_view(s, spec_path_name(v), spec_path_entry(v)),
            ).contains(k),
        paths_distinct(s) ==> paths_distinct(ordered_insert_view(s, spec_path_name(v), spec_path_entry(v))),
        entries_coherent(s) ==> entries_coherent(ordered_insert_view(s, spec_path_name(v), spec_path_entry(v))),
{
    let k = spec_path_name(v);
    let r = ordered_insert_view(s, k, spec_path_entry(v));
    lemma_view_key_position(s, k, 0);
    match view_key_position(s, k, 0) {
        Some(i) => {
            assert(path_keys(r)[i] == k);
            assert forall|key: Seq<char>| path_keys(s).contains(key) implies #[trigger] path_keys(r).contains(key) by {
                let j = choose|j: int| 0 <= j < s.len() && path_keys(s)[j] == key;
                assert(path_keys(r)[j] == key);
            }
        },
        None => {
            assert(path_keys(r)[s.len() as int] == k);
            assert forall|key: Seq<char>| path_keys(s).contains(key) implies #[trigger] path_keys(r).contains(key) by {
                let j = choose|j: int| 0 <= j < s.len() && path_keys(s)[j] == key;
                assert(path_keys(r)[j] == key);
            }
        },
    }
}

proof fn lemma_view_key_position_at(s: Seq<(Seq<char>, PathEntryView)>, k: Seq<char>, i: int, j: int)
    requires
        0 <= i <= j < s.len(),
        s[j].0 == k,
        forall|m: int| i <= m < j ==> s[m].0 != k,
    ensures
        view_key_position(s, k, i) == Some(j),
    decreases j - i,
{
    if i < j {
        lemma_view_key_position_at(s, k, i + 1, j);
    }
}

/// Adding the path item of a variant a second time changes nothing.
pub proof fn law_path_item_idempotent(s: Seq<(Seq<char>, PathEntryView)>, v: VariantView)
    ensures
        ordered_insert_view(
            ordered_insert_view(s, spec_path_name(v), spec_path_entry(v)),
            spec_path_name(v),
            spec_path_entry(v),
        ) == ordered_insert_view(s, spec_path_name(v), spec_path_entry(v)),
{
    let k = spec_path_name(v);
    let e = spec_path_entry(v);
    let r = ordered_insert_view(s, k, e);
    lemma_view_key_position(s, k, 0);
    match view_key_position(s, k, 0) {
        Some(i) => {
            lemma_view_key_position_at(r, k, 0, i);
            assert(r.update(i, (k, e)) =~= r);
        },
        None => {
            lemma_view_key_position_at(r, k, 0, s.len() as int);
            assert(r.update(s.len() as int, (k, e)) =~= r);
        },
    }
}

/// Inserting the items of several variants, in order.
pub proof fn lemma_insert_variants(
    p: Seq<(Seq<char>, PathEntryView)>,
    vs: Seq<VariantView>,
    n: int,
)
    requires
        0 <= n <= vs.len(),
    ensures
        forall|j: int|
            0 <= j < n ==> path_keys(spec_insert_variants(p, vs, n)).contains(
                #[trigger] spec_path_name(vs[j]),
            ),
        forall|k: Seq<char>|
            path_keys(p).contains(k) ==> #[trigger] path_keys(spec_insert_variants(p, vs, n)).contains(k),
        paths_distinct(p) ==> paths_distinct(spec_insert_variants(p, vs, n)),
        entries_coherent(p) ==> entries_coherent(spec_insert_variants(p, vs, n)),
    decreases n,
{
    if n > 0 {
        lemma_insert_variants(p, vs, n - 1);
        let prev = spec_insert_variants(p, vs, n - 1);
        lemma_insert_path(prev, vs[n - 1]);
    }
}

/// The variants a contract's messages yield, in processing order.
pub open spec fn contract_variants(c: LoadedIdl) -> Seq<VariantView> {
    let tag = json_str(json_index(c.idl, "contract_name"@)).unwrap();
    spec_variants(tag, json_index(c.idl, "execute"@)).unwrap() + spec_variants(
        tag,
        json_index(c.idl, "query"@),
    ).unwrap() + spec_variants(tag, json_index(c.idl, "instantiate"@)).unwrap()
}

proof fn lemma_message(p: Seq<(Seq<char>, PathEntryView)>, tag: Seq<char>, schema: Json)
    requires
        message_valid(tag, schema),
    ensures
        spec_message(Some(p), tag, schema) is Some,
        forall|j: int|
            0 <= j < spec_variants(tag, schema).unwrap().len() ==> path_keys(
                spec_message(Some(p), tag, schema).unwrap(),
            ).contains(#[trigger] spec_path_name(spec_variants(tag, schema).unwrap()[j])),
        forall|k: Seq<char>|
            path_keys(p).contains(k) ==> #[trigger] path_keys(
                spec_message(Some(p), tag, schema).unwrap(),
            ).contains(k),
        paths_distinct(p) ==> paths_distinct(spec_message(Some(p), tag, schema).unwrap()),
        entries_coherent(p) ==> entries_coherent(spec_message(Some(p), tag, schema).unwrap()),
{
    let vs = spec_variants(tag, schema).unwrap();
    lemma_insert_variants(p, vs, vs.len() as int);
}

proof fn lemma_contract(p: Seq<(Seq<char>, PathEntryView)>, c: LoadedIdl)
    requires
        contract_valid(c),
    ensures
        spec_contract(Some(p), c) is Some,
        forall|j: int|
            0 <= j < contract_variants(c).len() ==> path_keys(spec_contract(Some(p), c).unwrap()).contains(
                #[trigger] spec_path_name(contract_variants(c)[j]),
            ),
        forall|k: Seq<char>|
            path_keys(p).contains(k) ==> #[trigger] path_keys(spec_contract(Some(p), c).unwrap()).contains(k),
        paths_distinct(p) ==> paths_distinct(spec_contract(Some(p), c).unwrap()),
        entries_coherent(p) ==> entries_coherent(spec_contract(Some(p), c).unwrap()),
{
    let tag = json_str(json_index(c.idl, "contract_name"@)).unwrap();
    let e = json_index(c.idl, "execute"@);
    let q = json_index(c.idl, "query"@);
    let ins = json_index(c.idl, "instantiate"@);
    lemma_message(p, tag, e);
    let p1 = spec_message(Some(p), tag, e).unwrap();
    lemma_message(p1, tag, q);
    let p2 = spec_message(Some(p1), tag, q).unwrap();
    lemma_message(p2, tag, ins);
    let p3 = spec_message(Some(p2), tag, ins).unwrap();
    let ve = spec_variants(tag, e).unwrap();
    let vq = spec_variants(tag, q).unwrap();
    let vi = spec_variants(tag, ins).unwrap();
    assert(contract_variants(c) == ve + vq + vi);
    assert forall|j: int| 0 <= j < contract_variants(c).len() implies path_keys(p3).contains(
        #[trigger] spec_path_name(contract_variants(c)[j]),
    ) by {
        if j < ve.len() {
            assert(contract_variants(c)[j] == ve[j]);
            assert(path_keys(p1).contains(spec_path_name(ve[j])));
            assert(path_keys(p2).contains(spec_path_name(ve[j])));
        } else if j < ve.len() + vq.len() {
            assert(contract_variants(c)[j] == vq[j - ve.len()]);
            assert(path_keys(p2).contains(spec_path_name(vq[j - ve.len()])));
        } else {
            assert(contract_variants(c)[j] == vi[j - ve.len() - vq.len()]);
            assert(path_keys(p3).contains(spec_path_name(vi[j - ve.len() - vq.len()])));
        }
    }
    assert forall|k: Seq<char>| path_keys(p).contains(k) implies #[trigger] path_keys(p3).contains(k) by {
        assert(path_keys(p1).contains(k));
        assert(path_keys(p2).contains(k));
    }
}

proof fn lemma_all_paths(idls: Seq<LoadedIdl>, n: int)
    requires
        0 <= n <= idls.len(),
        forall|i: int| 0 <= i < n ==> contract_valid(#[trigger] idls[i]),
    ensures
        spec_all_paths(idls, n) is Some,
        forall|i: int, j: int|
            0 <= i < n && 0 <= j < contract_variants(idls[i]).len() ==> path_keys(
                spec_all_paths(idls, n).unwrap(),
            ).contains(#[trigger] spec_path_name(contract_variants(idls[i])[j])),
        paths_distinct(spec_all_paths(idls, n).unwrap()),
        entries_coherent(spec_all_paths(idls, n).unwrap()),
    decreases n,
{
    if n > 0 {
        lemma_all_paths(idls, n - 1);
        let p = spec_all_paths(idls, n - 1).unwrap();
        lemma_contract(p, idls[n - 1]);
    }
}

/// Every variant of every message (`execute`, `query`, `instantiate`) of
/// every contract has a path item in the document.
pub proof fn law_every_variant_documented(idls: Seq<LoadedIdl>)
    requires
        idls_processable(idls),
    ensures
        forall|i: int, j: int|
            0 <= i < idls.len() && 0 <= j < contract_variants(idls[i]).len() ==> path_keys(
                spec_api_doc(idls).paths,
            ).contains(#[trigger] spec_path_name(contract_variants(idls[i])[j])),
{
    lemma_all_paths_valid(idls, idls.len() as int);
    lemma_all_paths(idls, idls.len() as int);
}

/// No path appears twice in the document.
pub proof fn law_paths_distinct(idls: Seq<LoadedIdl>)
    requires
        idls_processable(idls),
    ensures
        paths_distinct(spec_api_doc(idls).paths),
{
    lemma_all_paths_valid(idls, idls.len() as int);
    lemma_all_paths(idls, idls.len() as int);
}

/// Every path item of the document is the item of the variant it carries,
/// under `/<contract>/<variant>`: a GET exactly for a query, summarised by
/// the first line of the variant's description, with the variant's
/// parameters as query parameters.
pub proof fn law_entries_match_variants(idls: Seq<LoadedIdl>)
    requires
        idls_processable(idls),
    ensures
        entries_coherent(spec_api_doc(idls).paths),
{
    lemma_all_paths_valid(idls, idls.len() as int);
    lemma_all_paths(idls, idls.len() as int);
}

/// The document carries a wasm binary exactly when some contract has one,
/// and then it is the Z85 text of the last contract's binary.
pub proof fn law_x_wasm_is_last_binary(idls: Seq<LoadedIdl>, n: int)
    requires
        0 <= n <= idls.len(),
    ensures
        spec_x_wasm(idls, n) is Some <==> exists|i: int| 0 <= i < n && (#[trigger] idls[i]).wasm is Some,
        forall|k: int|
            0 <= k < n && (#[trigger] idls[k]).wasm is Some && (forall|j: int| k < j < n ==> idls[j].wasm is None)
                ==> spec_x_wasm(idls, n) == Some(z85_encoding(idls[k].wasm.unwrap()@)),
    decreases n,
{
    if n > 0 {
        law_x_wasm_is_last_binary(idls, n - 1);
        if idls[n - 1].wasm is None {
            if exists|i: int| 0 <= i < n && (#[trigger] idls[i]).wasm is Some {
                let i = choose|i: int| 0 <= i < n && (#[trigger] idls[i]).wasm is Some;
                assert(i < n - 1);
            }
        }
    }
}

proof fn lemma_params_ascending(entries: Seq<(String, Json)>, n: int)
    requires
        spec_params(entries, n) is Some,
    ensures
        keys_ascending(spec_params(entries, n).unwrap()),
    decreases n,
{
    if n > 0 {
        lemma_params_ascending(entries, n - 1);
        let p = spec_params(entries, n - 1).unwrap();
        let t = crate::idl_processor::spec::spec_param_type(entries[n - 1].1).unwrap();
        lemma_sorted_insert_ascending(p, entries[n - 1].0@, ParameterView { t: t, required: false });
    }
}

proof fn lemma_mark_required_ascending(s: Seq<(Seq<char>, ParameterView)>, req: Seq<Seq<char>>)
    requires
        keys_ascending(s),
    ensures
        keys_ascending(mark_required(s, req)),
{
    let r = mark_required(s, req);
    assert forall|i: int, j: int| 0 <= i < j < r.len() implies crate::text::seq_less(
        #[trigger] r[i].0,
        #[trigger] r[j].0,
    ) by {
        assert(r[i].0 == s[i].0 && r[j].0 == s[j].0);
    }
}

/// The parameters of every variant read from a schema come out ascending
/// by name, each name once.
pub proof fn law_variant_parameters_ascending(v: Json, read_call: bool, single: bool, tag: Seq<char>)
    requires
        spec_variant(v, read_call, single, tag) is Some,
    ensures
        forall|k: int|
            0 <= k < spec_variant(v, read_call, single, tag).unwrap().len() ==> keys_ascending(
                (#[trigger] spec_variant(v, read_call, single, tag).unwrap()[k]).parameters,
            ),
{
    let r = spec_variant(v, read_call, single, tag).unwrap();
    if json_get(v, "enum"@) is None {
        if let Some(props) = json_get(v, "properties"@) {
            if let Some(entries) = json_object(props) {
                if entries.len() > 0 {
                    let pval = entries[0].1;
                    let inner = if single {
                        Some(entries)
                    } else {
                        json_object(json_index(pval, "properties"@))
                    };
                    if let Some(ie) = inner {
                        lemma_params_ascending(ie, ie.len() as int);
                        let params = spec_params(ie, ie.len() as int).unwrap();
                        let req = crate::idl_processor::spec::spec_required(pval).unwrap();
                        lemma_mark_required_ascending(params, req);
                    }
                }
            }
        }
    }
    assert forall|k: int| 0 <= k < r.len() implies keys_ascending((#[trigger] r[k]).parameters) by {
        assert(keys_ascending(Seq::<(Seq<char>, ParameterView)>::empty()));
    }
}

proof fn lemma_variants_of_ascending(arr: Seq<Json>, read_call: bool, tag: Seq<char>, n: int)
    requires
        spec_variants_of(arr, read_call, tag, n) is Some,
    ensures
        forall|k: int|
            0 <= k < spec_variants_of(arr, read_call, tag, n).unwrap().len() ==> keys_ascending(
                (#[trigger] spec_variants_of(arr, read_call, tag, n).unwrap()[k]).parameters,
            ),
    decreases n,
{
    if n > 0 {
        lemma_variants_of_ascending(arr, read_call, tag, n - 1);
        law_variant_parameters_ascending(arr[n - 1], read_call, false, tag);
        let a = spec_variants_of(arr, read_call, tag, n - 1).unwrap();
        let b = spec_variant(arr[n - 1], read_call, false, tag).unwrap();
        let r = spec_variants_of(arr, read_call, tag, n).unwrap();
        assert(r == a + b);
        assert forall|k: int| 0 <= k < r.len() implies keys_ascending((#[trigger] r[k]).parameters) by {
            if k < a.len() {
                assert(r[k] == a[k]);
            } else {
                assert(r[k] == b[k - a.len()]);
            }
        }
    }
}

/// The parameters of every variant of a message schema come out ascending
/// by name, each name once.
pub proof fn law_message_parameters_ascending(tag: Seq<char>, schema: Json)
    requires
        spec_variants(tag, schema) is Some,
    ensures
        forall|k: int|
            0 <= k < spec_variants(tag, schema).unwrap().len() ==> keys_ascending(
                (#[trigger] spec_variants(tag, schema).unwrap()[k]).parameters,
            ),
{
    let title = json_str(json_get(schema, "title"@).unwrap()).unwrap();
    let read_call = title == "QueryMsg"@;
    match json_get(schema, "oneOf"@) {
        Some(one_of) => match json_array(one_of) {
            Some(arr) => lemma_variants_of_ascending(arr, read_call, tag, arr.len() as int),
            None => {},
        },
        None => law_variant_parameters_ascending(schema, read_call, true, tag),
    }
}

} // verus!

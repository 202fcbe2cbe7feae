//! One callable message of a contract, as read from its schema.

use vstd::prelude::*;
use crate::text::{seq_less, str_equal, str_less, texts_of};

verus! {

/// A parameter of a message variant: its type name and whether the schema
/// lists it as required.
#[derive(Debug, Clone, PartialEq)]
pub struct VariantParameter {
    pub t: String,
    pub required: bool,
}

/// A message variant of a contract. `parameters` is kept as an ordered map:
/// ascending by name, each name once.
#[derive(Debug, Clone, PartialEq)]
pub struct VariantInfo {
    pub name: String,
    pub description: String,
    pub parameters: Vec<(String, VariantParameter)>,
    pub read_call: bool,
    pub contract_tag: String,
}

/// The value of a `VariantParameter`.
pub struct ParameterView {
    pub t: Seq<char>,
    pub required: bool,
}

/// The value of a `VariantInfo`.
pub struct VariantView {
    pub name: Seq<char>,
    pub description: Seq<char>,
    pub parameters: Seq<(Seq<char>, ParameterView)>,
    pub read_call: bool,
    pub contract_tag: Seq<char>,
}

impl View for VariantParameter {
    type V = ParameterView;

    open spec fn view(&self) -> ParameterView {
        ParameterView { t: self.t@, required: self.required }
    }
}

/// The value of a parameter list.
pub open spec fn params_view(s: Seq<(String, VariantParameter)>) -> Seq<(Seq<char>, ParameterView)> {
    s.map_values(|e: (String, VariantParameter)| (e.0@, e.1@))
}

impl View for VariantInfo {
    type V = VariantView;

    open spec fn view(&self) -> VariantView {
        VariantView {
            name: self.name@,
            description: self.description@,
            parameters: params_view(self.parameters@),
            read_call: self.read_call,
            contract_tag: self.contract_tag@,
        }
    }
}

/// The value of a list of variants.
pub open spec fn variants_view(s: Seq<VariantInfo>) -> Seq<VariantView> {
    s.map_values(|v: VariantInfo| v@)
}

/// Inserting into a map kept ascending by key: a present key has its value
/// replaced in place, a new key goes before the first greater key.
pub open spec fn sorted_insert(
    s: Seq<(Seq<char>, ParameterView)>,
    k: Seq<char>,
    v: ParameterView,
) -> Seq<(Seq<char>, ParameterView)>
    decreases s.len(),
{
    if s.len() == 0 {
        seq![(k, v)]
    } else if s[0].0 == k {
        s.update(0, (k, v))
    } else if seq_less(k, s[0].0) {
        seq![(k, v)] + s
    } else {
        seq![s[0]] + sorted_insert(s.drop_first(), k, v)
    }
}

/// The keys of a parameter list, in order.
pub open spec fn keys_of(s: Seq<(Seq<char>, ParameterView)>) -> Seq<Seq<char>> {
    s.map_values(|e: (Seq<char>, ParameterView)| e.0)
}

/// Keys strictly ascending, hence each key once.
pub open spec fn keys_ascending(s: Seq<(Seq<char>, ParameterView)>) -> bool {
    forall|i: int, j: int| 0 <= i < j < s.len() ==> seq_less(#[trigger] s[i].0, #[trigger] s[j].0)
}

/// Each parameter marked required exactly when it was, or its name is in `req`.
pub open spec fn mark_required(
    s: Seq<(Seq<char>, ParameterView)>,
    req: Seq<Seq<char>>,
) -> Seq<(Seq<char>, ParameterView)> {
    s.map_values(
        |e: (Seq<char>, ParameterView)|
            (e.0, ParameterView { t: e.1.t, required: e.1.required || req.contains(e.0) }),
    )
}

/// No sequence comes before itself.
pub proof fn lemma_seq_less_irreflexive(a: Seq<char>)
    ensures
        !seq_less(a, a),
    decreases a.len(),
{
    if a.len() > 0 {
        lemma_seq_less_irreflexive(a.drop_first());
    }
}

/// Of two different sequences, exactly one comes first.
pub proof fn lemma_seq_less_total(a: Seq<char>, b: Seq<char>)
    ensures
        a != b ==> (seq_less(a, b) || seq_less(b, a)),
        !(seq_less(a, b) && seq_less(b, a)),
    decreases a.len(),
{
    if a.len() > 0 && b.len() > 0 {
        lemma_seq_less_total(a.drop_first(), b.drop_first());
        if a[0] == b[0] && a.drop_first() == b.drop_first() {
            assert(a =~= seq![a[0]] + a.drop_first());
            assert(b =~= seq![b[0]] + b.drop_first());
        }
        if a[0] != b[0] {
            assert(a[0] as int != b[0] as int);
        }
    } else if a.len() == 0 && b.len() == 0 {
        assert(a =~= b);
    }
}

/// The order is transitive.
pub proof fn lemma_seq_less_transitive(a: Seq<char>, b: Seq<char>, c: Seq<char>)
    requires
        seq_less(a, b),
        seq_less(b, c),
    ensures
        seq_less(a, c),
    decreases a.len(),
{
    if a.len() > 0 && b.len() > 0 && c.len() > 0 {
        if a[0] == b[0] && b[0] == c[0] {
            lemma_seq_less_transitive(a.drop_first(), b.drop_first(), c.drop_first());
        }
    }
}

/// What `sorted_insert` computes, once the position of the key is known.
proof fn lemma_sorted_insert_at(
    s: Seq<(Seq<char>, ParameterView)>,
    k: Seq<char>,
    v: ParameterView,
    i: int,
)
    requires
        0 <= i <= s.len(),
        forall|j: int| 0 <= j < i ==> seq_less(#[trigger] s[j].0, k),
        i < s.len() ==> !seq_less(s[i].0, k),
    ensures
        sorted_insert(s, k, v) == (if i < s.len() && s[i].0 == k {
            s.update(i, (k, v))
        } else {
            s.insert(i, (k, v))
        }),
    decreases i,
{
    if i == 0 {
        if s.len() > 0 {
            lemma_seq_less_total(s[0].0, k);
        }
        if s.len() > 0 && s[0].0 != k {
            assert(seq![(k, v)] + s =~= s.insert(0, (k, v)));
        }
        if s.len() == 0 {
            assert(seq![(k, v)] =~= s.insert(0, (k, v)));
        }
    } else {
        lemma_seq_less_irreflexive(k);
        lemma_seq_less_total(s[0].0, k);
        assert(s[0].0 != k);
        assert(!seq_less(k, s[0].0));
        let t = s.drop_first();
        assert forall|j: int| 0 <= j < i - 1 implies seq_less(#[trigger] t[j].0, k) by {
            assert(t[j] == s[j + 1]);
        }
        lemma_sorted_insert_at(t, k, v, i - 1);
        if i < s.len() && s[i].0 == k {
            assert(seq![s[0]] + t.update(i - 1, (k, v)) =~= s.update(i, (k, v)));
        } else {
            assert(seq![s[0]] + t.insert(i - 1, (k, v)) =~= s.insert(i, (k, v)));
        }
    }
}

/// Inserting keeps keys strictly ascending.
pub proof fn lemma_sorted_insert_ascending(
    s: Seq<(Seq<char>, ParameterView)>,
    k: Seq<char>,
    v: ParameterView,
)
    requires
        keys_ascending(s),
    ensures
        keys_ascending(sorted_insert(s, k, v)),
        forall|key: Seq<char>|
            #[trigger] keys_of(sorted_insert(s, k, v)).contains(key) <==> (key == k || keys_of(
                s,
            ).contains(key)),
    decreases s.len(),
{
    let r = sorted_insert(s, k, v);
    if s.len() == 0 {
        assert forall|key: Seq<char>| keys_of(r).contains(key) <==> (key == k
            || keys_of(s).contains(key)) by {
            if key == k {
                assert(keys_of(r)[0] == k);
            }
        }
    } else if s[0].0 == k {
        assert forall|key: Seq<char>| keys_of(r).contains(key) <==> (key == k
            || keys_of(s).contains(key)) by {
            if keys_of(r).contains(key) {
                let j = choose|j: int| 0 <= j < r.len() && keys_of(r)[j] == key;
                assert(keys_of(s)[j] == key);
            }
            if keys_of(s).contains(key) {
                let j = choose|j: int| 0 <= j < s.len() && keys_of(s)[j] == key;
                assert(keys_of(r)[j] == key);
            }
            if key == k {
                assert(keys_of(s)[0] == key);
            }
        }
    } else if seq_less(k, s[0].0) {
        assert forall|i: int, j: int| 0 <= i < j < r.len() implies seq_less(
            #[trigger] r[i].0,
            #[trigger] r[j].0,
        ) by {
            if i == 0 {
                if j > 1 {
                    lemma_seq_less_transitive(k, s[0].0, s[j - 1].0);
                }
            } else {
                assert(r[i] == s[i - 1] && r[j] == s[j - 1]);
            }
        }
        assert forall|key: Seq<char>| keys_of(r).contains(key) <==> (key == k
            || keys_of(s).contains(key)) by {
            if keys_of(r).contains(key) {
                let j = choose|j: int| 0 <= j < r.len() && keys_of(r)[j] == key;
                if j > 0 {
                    assert(keys_of(s)[j - 1] == key);
                }
            }
            if keys_of(s).contains(key) {
                let j = choose|j: int| 0 <= j < s.len() && keys_of(s)[j] == key;
                assert(keys_of(r)[j + 1] == key);
            }
            if key == k {
                assert(keys_of(r)[0] == key);
            }
        }
    } else {
        let t = s.drop_first();
        assert(keys_ascending(t)) by {
            assert forall|i: int, j: int| 0 <= i < j < t.len() implies seq_less(
                #[trigger] t[i].0,
                #[trigger] t[j].0,
            ) by {
                assert(t[i] == s[i + 1] && t[j] == s[j + 1]);
            }
        }
        lemma_sorted_insert_ascending(t, k, v);
        let rt = sorted_insert(t, k, v);
        assert(r == seq![s[0]] + rt);
        lemma_seq_less_total(s[0].0, k);
        assert(seq_less(s[0].0, k));
        assert forall|key: Seq<char>| keys_of(r).contains(key) <==> (key == k
            || keys_of(s).contains(key)) by {
            if keys_of(r).contains(key) {
                let j = choose|j: int| 0 <= j < r.len() && keys_of(r)[j] == key;
                if j == 0 {
                    assert(keys_of(s)[0] == key);
                } else {
                    assert(keys_of(rt)[j - 1] == key);
                    assert(keys_of(rt).contains(key));
                    if key != k {
                        assert(keys_of(t).contains(key));
                        let m = choose|m: int| 0 <= m < t.len() && keys_of(t)[m] == key;
                        assert(keys_of(s)[m + 1] == key);
                    }
                }
            }
            if keys_of(s).contains(key) {
                let j = choose|j: int| 0 <= j < s.len() && keys_of(s)[j] == key;
                if j == 0 {
                    assert(keys_of(r)[0] == key);
                } else {
                    assert(keys_of(t)[j - 1] == key);
                    assert(keys_of(rt).contains(key));
                    let m = choose|m: int| 0 <= m < rt.len() && keys_of(rt)[m] == key;
                    assert(keys_of(r)[m + 1] == key);
                }
            }
            if key == k {
                assert(keys_of(rt).contains(key));
                let m = choose|m: int| 0 <= m < rt.len() && keys_of(rt)[m] == key;
                assert(keys_of(r)[m + 1] == key);
            }
        }
        assert forall|i: int, j: int| 0 <= i < j < r.len() implies seq_less(
            #[trigger] r[i].0,
            #[trigger] r[j].0,
        ) by {
            if i == 0 {
                assert(r[j] == rt[j - 1]);
                assert(keys_of(rt)[j - 1] == rt[j - 1].0);
                assert(keys_of(rt).contains(rt[j - 1].0));
                if rt[j - 1].0 != k {
                    assert(keys_of(t).contains(rt[j - 1].0));
                    let m = choose|m: int| 0 <= m < t.len() && keys_of(t)[m] == rt[j - 1].0;
                    assert(t[m] == s[m + 1]);
                }
            } else {
                assert(r[i] == rt[i - 1] && r[j] == rt[j - 1]);
            }
        }
    }
}

/// Adds a parameter to a list kept ascending by name, replacing the
/// parameter of the same name if there is one.
pub fn insert_parameter(
    params: &mut Vec<(String, VariantParameter)>,
    key: String,
    p: VariantParameter,
)
    ensures
        params_view(final(params)@) == sorted_insert(params_view(old(params)@), key@, p@),
{
    let ghost s = params_view(params@);
    let n = params.len();
    let mut i: usize = 0;
    while i < n && str_less(params[i].0.as_str(), key.as_str())
        invariant
            n == params@.len(),
            s == params_view(params@),
            i <= n,
            forall|j: int| 0 <= j < i ==> seq_less(#[trigger] s[j].0, key@),
        decreases n - i,
    {
        i = i + 1;
    }
    proof {
        lemma_sorted_insert_at(s, key@, p@, i as int);
    }
    if i < n && str_equal(params[i].0.as_str(), key.as_str()) {
        params.set(i, (key, p));
        assert(params_view(params@) =~= s.update(i as int, (key@, p@)));
    } else {
        params.insert(i, (key, p));
        assert(params_view(params@) =~= s.insert(i as int, (key@, p@)));
    }
}

/// Whether `s` holds `key`.
fn contains_text(s: &Vec<String>, key: &str) -> (r: bool)
    ensures
        r == texts_of(s@).contains(key@),
{
    let n = s.len();
    let mut i: usize = 0;
    while i < n
        invariant
            n == s@.len(),
            i <= n,
            forall|j: int| 0 <= j < i ==> s@[j]@ != key@,
        decreases n - i,
    {
        if str_equal(s[i].as_str(), key) {
            assert(texts_of(s@)[i as int] == key@);
            return true;
        }
        i = i + 1;
    }
    assert(!texts_of(s@).contains(key@)) by {
        if texts_of(s@).contains(key@) {
            let j = choose|j: int| 0 <= j < n && texts_of(s@)[j] == key@;
            assert(s@[j]@ == key@);
        }
    }
    false
}

/// Marks required every parameter whose name is listed in `required`.
pub fn mark_required_parameters(params: &mut Vec<(String, VariantParameter)>, required: &Vec<String>)
    ensures
        params_view(final(params)@) == mark_required(
            params_view(old(params)@),
            texts_of(required@),
        ),
{
    let ghost s = params_view(params@);
    let ghost req = texts_of(required@);
    let n = params.len();
    let mut i: usize = 0;
    while i < n
        invariant
            n == params@.len(),
            s.len() == n,
            i <= n,
            req == texts_of(required@),
            forall|j: int| i <= j < n ==> #[trigger] params_view(params@)[j] == s[j],
            forall|j: int| 0 <= j < i ==> #[trigger] params_view(params@)[j] == mark_required(s, req)[j],
        decreases n - i,
    {
        let ghost before = params@;
        let listed = contains_text(required, params[i].0.as_str());
        if listed && !params[i].1.required {
            let key = params[i].0.clone();
            let t = params[i].1.t.clone();
            params.set(i, (key, VariantParameter { t, required: true }));
        }
        proof {
            assert(params_view(before)[i as int] == s[i as int]);
            assert forall|j: int| 0 <= j < n && j != i implies params@[j] == before[j] by {}
            assert forall|j: int| i < j < n implies #[trigger] params_view(params@)[j] == s[j] by {
                assert(params_view(before)[j] == s[j]);
            }
            assert forall|j: int| 0 <= j < i implies #[trigger] params_view(params@)[j] == mark_required(s, req)[j] by {
                assert(params_view(before)[j] == mark_required(s, req)[j]);
            }
            assert(params_view(params@)[i as int] == mark_required(s, req)[i as int]);
        }
        i = i + 1;
    }
    assert(params_view(params@) =~= mark_required(s, req));
}

/// A copy of a parameter list.
pub fn copy_parameters(params: &Vec<(String, VariantParameter)>) -> (r: Vec<(String, VariantParameter)>)
    ensures
        params_view(r@) == params_view(params@),
{
    let mut r: Vec<(String, VariantParameter)> = Vec::new();
    let n = params.len();
    let mut i: usize = 0;
    while i < n
        invariant
            n == params@.len(),
            i <= n,
            r@.len() == i,
            forall|j: int| 0 <= j < i ==> #[trigger] params_view(r@)[j] == params_view(params@)[j],
        decreases n - i,
    {
        let ghost before = r@;
        let key = params[i].0.clone();
        let t = params[i].1.t.clone();
        r.push((key, VariantParameter { t, required: params[i].1.required }));
        proof {
            assert forall|j: int| 0 <= j < i implies #[trigger] params_view(r@)[j] == params_view(params@)[j] by {
                assert(r@[j] == before[j]);
                assert(params_view(before)[j] == params_view(params@)[j]);
            }
            assert(params_view(r@)[i as int] == params_view(params@)[i as int]);
        }
        i = i + 1;
    }
    assert(params_view(r@) =~= params_view(params@));
    r
}

impl VariantInfo {
    /// A copy of this variant.
    pub fn copy(&self) -> (r: VariantInfo)
        ensures
            r@ == self@,
    {
        VariantInfo {
            name: self.name.clone(),
            description: self.description.clone(),
            parameters: copy_parameters(&self.parameters),
            read_call: self.read_call,
            contract_tag: self.contract_tag.clone(),
        }
    }
}

} // verus!

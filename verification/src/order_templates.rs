//! Saved calculate-order templates: the keys that identify a template, the
//! removal of repeated templates from a listing, and the stamping of a
//! template before it is stored.
use vstd::prelude::*;

use crate::decimal::{decimal, push_decimal};
use crate::text::{
    chars_eq, chars_of, push_all, push_str_chars, string_of, to_lowercase, trim, trim_chars,
    unicode_lowercase,
};

verus! {

/// A calculate-order template.
///
/// `N` carries the numeric fields as the caller holds them; `width_mm_key`,
/// `waste_percent_key` and `roll_count_key` hold their three-decimal
/// renderings (empty for a missing roll count or a non-finite number), which
/// the template's identity reads.
#[derive(Debug)]
pub struct CalculateOrderTemplate<N> {
    pub id: String,
    pub code: String,
    pub name: String,
    pub saved_at: String,
    pub order_number: String,
    pub customer_ref: String,
    pub customer: String,
    pub item_code: String,
    pub product: String,
    pub status: String,
    pub material_display: String,
    pub color: String,
    pub image_id: String,
    pub image_name: String,
    pub image_mime: String,
    pub image_size_bytes: u64,
    pub image_url: String,
    pub width_mm: N,
    pub waste_percent: N,
    pub roll_count: Option<N>,
    pub width_mm_key: String,
    pub waste_percent_key: String,
    pub roll_count_key: String,
    pub first_layer_material: String,
    pub first_layer_micron: String,
    pub second_layer_material: String,
    pub second_layer_micron: String,
    pub third_layer_material: String,
    pub third_layer_micron: String,
    pub note: String,
    pub kg: N,
    pub source_map_id: String,
}

/// The comparison form of a text: trimmed, then lowercased.
pub open spec fn normalize_key_spec(value: Seq<char>) -> Seq<char> {
    unicode_lowercase(trim(value))
}

/// The comparison form of a text (`value.trim().to_lowercase()`).
pub fn normalize_key(value: &str) -> (r: String)
    ensures
        r@ == normalize_key_spec(value@),
{
    let t = string_of(trim_chars(chars_of(value).as_slice()).as_slice());
    to_lowercase(t.as_str())
}

/// The key of a template without a product: `code:` and its code, or `id:`
/// and its trimmed id when it has no code.
pub open spec fn legacy_key_spec<N>(t: CalculateOrderTemplate<N>) -> Seq<char> {
    let code = normalize_key_spec(t.code@);
    if code.len() == 0 {
        "id:"@ + trim(t.id@)
    } else {
        "code:"@ + code
    }
}

/// The product of a template: the first non-empty of its item code, product
/// and name, in comparison form.
pub open spec fn product_key_spec<N>(t: CalculateOrderTemplate<N>) -> Seq<char> {
    if normalize_key_spec(t.item_code@).len() > 0 {
        normalize_key_spec(t.item_code@)
    } else if normalize_key_spec(t.product@).len() > 0 {
        normalize_key_spec(t.product@)
    } else {
        normalize_key_spec(t.name@)
    }
}

/// The parts of the quick key of a template, in order.
pub open spec fn quick_key_parts<N>(t: CalculateOrderTemplate<N>) -> Seq<Seq<char>> {
    seq![
        "quick"@,
        normalize_key_spec(t.customer_ref@),
        normalize_key_spec(t.customer@),
        product_key_spec(t),
        normalize_key_spec(t.status@),
        normalize_key_spec(t.material_display@),
        normalize_key_spec(t.color@),
        t.width_mm_key@,
        t.waste_percent_key@,
        t.roll_count_key@,
        normalize_key_spec(t.first_layer_material@),
        normalize_key_spec(t.first_layer_micron@),
        normalize_key_spec(t.second_layer_material@),
        normalize_key_spec(t.second_layer_micron@),
        normalize_key_spec(t.third_layer_material@),
        normalize_key_spec(t.third_layer_micron@),
        normalize_key_spec(t.note@),
    ]
}

/// `parts` joined with `|`.
pub open spec fn join_bar(parts: Seq<Seq<char>>) -> Seq<char>
    decreases parts.len(),
{
    if parts.len() == 0 {
        Seq::empty()
    } else if parts.len() == 1 {
        parts[0]
    } else {
        join_bar(parts.drop_last()) + "|"@ + parts.last()
    }
}

/// The identity of a template in listings: the quick key when it has a
/// product, else the legacy key.
pub open spec fn template_key_spec<N>(t: CalculateOrderTemplate<N>) -> Seq<char> {
    if product_key_spec(t).len() == 0 {
        legacy_key_spec(t)
    } else {
        join_bar(quick_key_parts(t))
    }
}

fn legacy_key_chars<N>(template: &CalculateOrderTemplate<N>) -> (r: Vec<char>)
    ensures
        r@ == legacy_key_spec(*template),
{
    let code = normalize_key(template.code.as_str());
    if code.as_str().is_empty() {
        let mut out = chars_of("id:");
        let id = trim_chars(chars_of(template.id.as_str()).as_slice());
        push_all(&mut out, id.as_slice());
        out
    } else {
        let mut out = chars_of("code:");
        push_str_chars(&mut out, code.as_str());
        out
    }
}

fn template_key_chars<N>(template: &CalculateOrderTemplate<N>) -> (r: Vec<char>)
    ensures
        r@ == template_key_spec(*template),
{
    let ic = normalize_key(template.item_code.as_str());
    let pr = normalize_key(template.product.as_str());
    let nm = normalize_key(template.name.as_str());
    let product_key = if !ic.as_str().is_empty() {
        ic
    } else if !pr.as_str().is_empty() {
        pr
    } else {
        nm
    };
    if product_key.as_str().is_empty() {
        return legacy_key_chars(template);
    }
    let parts: Vec<String> = vec![
        crate::text::owned("quick"),
        normalize_key(template.customer_ref.as_str()),
        normalize_key(template.customer.as_str()),
        product_key,
        normalize_key(template.status.as_str()),
        normalize_key(template.material_display.as_str()),
        normalize_key(template.color.as_str()),
        template.width_mm_key.clone(),
        template.waste_percent_key.clone(),
        template.roll_count_key.clone(),
        normalize_key(template.first_layer_material.as_str()),
        normalize_key(template.first_layer_micron.as_str()),
        normalize_key(template.second_layer_material.as_str()),
        normalize_key(template.second_layer_micron.as_str()),
        normalize_key(template.third_layer_material.as_str()),
        normalize_key(template.third_layer_micron.as_str()),
        normalize_key(template.note.as_str()),
    ];
    let ghost pv = parts@.map_values(|s: String| s@);
    assert(pv =~= quick_key_parts(*template));
    let mut out = chars_of(parts[0].as_str());
    let mut i: usize = 1;
    assert(pv.take(1) =~= seq![pv[0]]);
    while i < parts.len()
        invariant
            pv == parts@.map_values(|s: String| s@),
            pv.len() == 17,
            1 <= i <= 17,
            out@ == join_bar(pv.take(i as int)),
        decreases 17 - i,
    {
        push_str_chars(&mut out, "|");
        push_str_chars(&mut out, parts[i].as_str());
        assert(pv.take(i + 1).drop_last() =~= pv.take(i as int));
        i = i + 1;
    }
    assert(pv.take(17) =~= pv);
    out
}


/// The legacy key of `template`: `code:<code>` or `id:<id>`.
pub fn legacy_template_key<N>(template: &CalculateOrderTemplate<N>) -> (r: String)
    ensures
        r@ == legacy_key_spec(*template),
{
    string_of(legacy_key_chars(template).as_slice())
}

/// The identity key of `template` in listings.
pub fn quick_template_key<N>(template: &CalculateOrderTemplate<N>) -> (r: String)
    ensures
        r@ == template_key_spec(*template),
{
    string_of(template_key_chars(template).as_slice())
}

/// Whether the template at `i` stays in a listing: its key is `id:` (a
/// template with neither product, code nor id), or no earlier template has
/// its key.
pub open spec fn kept<N>(ts: Seq<CalculateOrderTemplate<N>>, i: int) -> bool {
    template_key_spec(ts[i]) == "id:"@ || forall|j: int|
        0 <= j < i ==> template_key_spec(#[trigger] ts[j]) != template_key_spec(ts[i])
}

/// The listing without repeated templates: the first template of each key
/// stays, in order.
pub open spec fn dedupe_spec<N>(ts: Seq<CalculateOrderTemplate<N>>) -> Seq<CalculateOrderTemplate<N>>
    decreases ts.len(),
{
    if ts.len() == 0 {
        Seq::empty()
    } else if kept(ts, ts.len() - 1) {
        dedupe_spec(ts.drop_last()).push(ts.last())
    } else {
        dedupe_spec(ts.drop_last())
    }
}

fn seen_contains(seen: &Vec<Vec<char>>, key: &[char]) -> (b: bool)
    ensures
        b == exists|j: int| 0 <= j < seen@.len() && (#[trigger] seen@[j])@ == key@,
{
    let mut j: usize = 0;
    while j < seen.len()
        invariant
            j <= seen@.len(),
            forall|x: int| 0 <= x < j ==> (#[trigger] seen@[x])@ != key@,
        decreases seen@.len() - j,
    {
        if chars_eq(seen[j].as_slice(), key) {
            return true;
        }
        j = j + 1;
    }
    false
}

proof fn lemma_kept_prefix<N>(ts: Seq<CalculateOrderTemplate<N>>, i: int, n: int)
    requires
        0 <= i < n <= ts.len(),
    ensures
        kept(ts.take(n), i) == kept(ts, i),
{
    assert forall|j: int| 0 <= j < i implies ts.take(n)[j] == ts[j] by {}
    assert(ts.take(n)[i] == ts[i]);
}

/// The listing `templates` without repeated templates, first ones kept.
pub fn dedupe_templates<N>(templates: Vec<CalculateOrderTemplate<N>>) -> (r: Vec<CalculateOrderTemplate<N>>)
    ensures
        r@ == dedupe_spec(templates@),
{
    let ghost all = templates@;
    let mut rest = templates;
    let mut seen: Vec<Vec<char>> = Vec::new();
    let mut result: Vec<CalculateOrderTemplate<N>> = Vec::new();
    let idc = chars_of("id:");
    let ghost mut i: int = 0;
    while rest.len() > 0
        invariant
            0 <= i <= all.len(),
            rest@ == all.skip(i),
            result@ == dedupe_spec(all.take(i)),
            idc@ == "id:"@,
            forall|j: int|
                0 <= j < i && template_key_spec(#[trigger] all[j]) != "id:"@ ==> exists|x: int|
                    0 <= x < seen@.len() && seen@[x]@ == template_key_spec(all[j]),
            forall|x: int|
                0 <= x < seen@.len() ==> exists|j: int|
                    0 <= j < i && template_key_spec(#[trigger] all[j]) == (#[trigger] seen@[x])@,
        decreases all.len() - i,
    {
        assert(rest@[0] == all[i]);
        let t = rest.remove(0);
        let key = template_key_chars(&t);
        let is_id = chars_eq(key.as_slice(), idc.as_slice());
        let found = seen_contains(&seen, key.as_slice());
        proof {
            assert(all.take(i + 1).drop_last() =~= all.take(i));
            assert(all.take(i + 1).last() == all[i]);
            lemma_kept_prefix(all, i, i + 1);
            if !is_id {
                if found {
                    let x = choose|x: int| 0 <= x < seen@.len() && (#[trigger] seen@[x])@ == key@;
                    let j = choose|j: int| 0 <= j < i && template_key_spec(#[trigger] all[j]) == seen@[x]@;
                    assert(!kept(all, i));
                } else {
                    assert forall|j: int| 0 <= j < i implies template_key_spec(#[trigger] all[j])
                        != template_key_spec(all[i]) by {
                        if template_key_spec(all[j]) == template_key_spec(all[i]) {
                            let x = choose|x: int| 0 <= x < seen@.len() && seen@[x]@ == template_key_spec(all[j]);
                        }
                    }
                    assert(kept(all, i));
                }
            }
        }
        if is_id || !found {
            if !is_id {
                let ghost before = seen@;
                seen.push(key);
                proof {
                    assert forall|j: int|
                        0 <= j < i + 1 && template_key_spec(#[trigger] all[j]) != "id:"@ implies exists|x: int|
                            0 <= x < seen@.len() && seen@[x]@ == template_key_spec(all[j]) by {
                        if j < i {
                            let x = choose|x: int| 0 <= x < before.len() && before[x]@ == template_key_spec(all[j]);
                            assert(seen@[x] == before[x]);
                        } else {
                            assert(seen@[before.len() as int]@ == template_key_spec(all[j]));
                        }
                    }
                    assert forall|x: int| 0 <= x < seen@.len() implies exists|j: int|
                        0 <= j < i + 1 && template_key_spec(#[trigger] all[j]) == (#[trigger] seen@[x])@ by {
                        if x < before.len() {
                            assert(seen@[x] == before[x]);
                        } else {
                            assert(template_key_spec(all[i]) == seen@[x]@);
                        }
                    }
                }
            }
            result.push(t);
        }
        proof {
            i = i + 1;
            assert(rest@ =~= all.skip(i));
        }
    }
    assert(all.take(i) =~= all);
    result
}


/// Keys are unique in a listing without repeats, but for `id:`.
pub proof fn law_dedupe_keys_unique<N>(ts: Seq<CalculateOrderTemplate<N>>)
    ensures
        forall|a: int, b: int|
            0 <= a < b < dedupe_spec(ts).len() && template_key_spec(#[trigger] dedupe_spec(ts)[a])
                == template_key_spec(#[trigger] dedupe_spec(ts)[b]) ==> template_key_spec(
                dedupe_spec(ts)[b],
            ) == "id:"@,
    decreases ts.len(),
{
    if ts.len() > 0 {
        let prev = ts.drop_last();
        law_dedupe_keys_unique(prev);
        lemma_dedupe_from(ts.drop_last());
        let d = dedupe_spec(ts);
        let dp = dedupe_spec(prev);
        if kept(ts, ts.len() - 1) {
            assert forall|a: int, b: int|
                0 <= a < b < d.len() && template_key_spec(#[trigger] d[a]) == template_key_spec(
                    #[trigger] d[b],
                ) implies template_key_spec(d[b]) == "id:"@ by {
                if b < dp.len() {
                    assert(d[a] == dp[a]);
                    assert(d[b] == dp[b]);
                } else {
                    assert(d[b] == ts.last());
                    assert(d[a] == dp[a]);
                    let j = choose|j: int| 0 <= j < prev.len() && prev[j] == dp[a];
                    assert(ts[j] == prev[j]);
                }
            }
        }
    }
}

/// `parts` joined with `|` begins with its first part and a bar, when there
/// are at least two parts.
proof fn lemma_join_bar_prefix(parts: Seq<Seq<char>>)
    requires
        parts.len() >= 2,
    ensures
        join_bar(parts).len() > parts[0].len(),
        join_bar(parts).subrange(0, parts[0].len() + 1int) == parts[0] + "|"@,
    decreases parts.len(),
{
    reveal_strlit("|");
    let init = parts.drop_last();
    if parts.len() > 2 {
        lemma_join_bar_prefix(init);
        assert(init[0] == parts[0]);
        let j = join_bar(init);
        assert((j + "|"@ + parts.last()).subrange(0, parts[0].len() + 1int) =~= j.subrange(
            0,
            parts[0].len() + 1int,
        ));
    } else {
        assert(join_bar(init) == parts[0]);
        assert((parts[0] + "|"@ + parts.last()).subrange(0, parts[0].len() + 1int) =~= parts[0]
            + "|"@);
    }
}

/// Two templates whose text fields read by the quick key have the same
/// comparison form (trimmed, then lowercased), and whose three numeric
/// renderings agree, have the same identity, whatever their id, code, order
/// number, saved time, weight, source map and image. When they have a
/// product that identity is the quick key, which begins with `quick|`.
pub proof fn law_quick_key_reads_comparison_forms<N>(
    a: CalculateOrderTemplate<N>,
    b: CalculateOrderTemplate<N>,
)
    requires
        product_key_spec(a).len() > 0,
        normalize_key_spec(a.customer_ref@) == normalize_key_spec(b.customer_ref@),
        normalize_key_spec(a.customer@) == normalize_key_spec(b.customer@),
        normalize_key_spec(a.item_code@) == normalize_key_spec(b.item_code@),
        normalize_key_spec(a.product@) == normalize_key_spec(b.product@),
        normalize_key_spec(a.name@) == normalize_key_spec(b.name@),
        normalize_key_spec(a.status@) == normalize_key_spec(b.status@),
        normalize_key_spec(a.material_display@) == normalize_key_spec(b.material_display@),
        normalize_key_spec(a.color@) == normalize_key_spec(b.color@),
        a.width_mm_key@ == b.width_mm_key@,
        a.waste_percent_key@ == b.waste_percent_key@,
        a.roll_count_key@ == b.roll_count_key@,
        normalize_key_spec(a.first_layer_material@) == normalize_key_spec(b.first_layer_material@),
        normalize_key_spec(a.first_layer_micron@) == normalize_key_spec(b.first_layer_micron@),
        normalize_key_spec(a.second_layer_material@) == normalize_key_spec(b.second_layer_material@),
        normalize_key_spec(a.second_layer_micron@) == normalize_key_spec(b.second_layer_micron@),
        normalize_key_spec(a.third_layer_material@) == normalize_key_spec(b.third_layer_material@),
        normalize_key_spec(a.third_layer_micron@) == normalize_key_spec(b.third_layer_micron@),
        normalize_key_spec(a.note@) == normalize_key_spec(b.note@),
    ensures
        template_key_spec(a) == template_key_spec(b),
        template_key_spec(a) == join_bar(quick_key_parts(a)),
        template_key_spec(a).len() > 5,
        template_key_spec(a).subrange(0, 6) == "quick|"@,
{
    reveal_strlit("quick");
    reveal_strlit("quick|");
    reveal_strlit("|");
    assert(product_key_spec(a) == product_key_spec(b));
    assert(quick_key_parts(a) =~= quick_key_parts(b));
    lemma_join_bar_prefix(quick_key_parts(a));
    assert(quick_key_parts(a)[0] == "quick"@);
    assert("quick"@ + "|"@ =~= "quick|"@);
}

/// Surrounding whitespace does not change the comparison form of a text.
pub proof fn law_normalize_key_ignores_surrounding_whitespace(x: Seq<char>, y: Seq<char>)
    requires
        trim(x) == trim(y),
    ensures
        normalize_key_spec(x) == normalize_key_spec(y),
{
}

proof fn lemma_join_bar_concat(p1: Seq<Seq<char>>, p2: Seq<Seq<char>>)
    requires
        p1.len() > 0,
        p2.len() > 0,
    ensures
        join_bar(p1 + p2) == join_bar(p1) + "|"@ + join_bar(p2),
    decreases p2.len(),
{
    let p = p1 + p2;
    assert(p.drop_last() =~= p1 + p2.drop_last());
    assert(p.last() == p2.last());
    if p2.len() == 1 {
        assert(p2.drop_last() =~= Seq::<Seq<char>>::empty());
        assert(p.drop_last() =~= p1);
        assert(join_bar(p2) == p2[0]);
    } else {
        lemma_join_bar_concat(p1, p2.drop_last());
        assert(join_bar(p1 + p2.drop_last()) + "|"@ + p2.last() =~= join_bar(p1) + "|"@ + (join_bar(
            p2.drop_last(),
        ) + "|"@ + p2.last()));
    }
}

proof fn lemma_join_bar_around(p: Seq<Seq<char>>, i: int)
    requires
        0 < i < p.len() - 1,
    ensures
        join_bar(p) == join_bar(p.take(i)) + "|"@ + p[i] + "|"@ + join_bar(p.skip(i + 1)),
{
    let a = p.take(i);
    let m = seq![p[i]];
    let b = p.skip(i + 1);
    assert(p =~= a + (m + b));
    lemma_join_bar_concat(m, b);
    lemma_join_bar_concat(a, m + b);
    assert(join_bar(m) == p[i]);
    assert(join_bar(a) + "|"@ + (p[i] + "|"@ + join_bar(b)) =~= join_bar(a) + "|"@ + p[i] + "|"@ + join_bar(b));
}

/// Two lists of parts that differ in exactly one inner part join into
/// different texts.
proof fn lemma_join_bar_one_part_differs(p: Seq<Seq<char>>, q: Seq<Seq<char>>, i: int)
    requires
        p.len() == q.len(),
        0 < i < p.len(),
        forall|j: int| 0 <= j < p.len() && j != i ==> p[j] == q[j],
        p[i] != q[i],
    ensures
        join_bar(p) != join_bar(q),
{
    if i == p.len() - 1 {
        assert(p.drop_last() =~= q.drop_last());
        let x = join_bar(p.drop_last()) + "|"@;
        assert(join_bar(p) =~= x + p[i]);
        assert(join_bar(q) =~= x + q[i]);
        if join_bar(p) == join_bar(q) {
            assert((x + p[i]).skip(x.len() as int) =~= p[i]);
            assert((x + q[i]).skip(x.len() as int) =~= q[i]);
        }
    } else {
        lemma_join_bar_around(p, i);
        lemma_join_bar_around(q, i);
        assert(p.take(i) =~= q.take(i));
        assert(p.skip(i + 1) =~= q.skip(i + 1));
        let x = join_bar(p.take(i)) + "|"@;
        let y = "|"@ + join_bar(p.skip(i + 1));
        let jp = x + p[i] + y;
        let jq = x + q[i] + y;
        assert(join_bar(p) =~= jp);
        assert(join_bar(q) =~= jq);
        if jp == jq {
            assert(p[i].len() == q[i].len());
            assert(jp.subrange(x.len() as int, x.len() + p[i].len() as int) =~= p[i]);
            assert(jq.subrange(x.len() as int, x.len() + q[i].len() as int) =~= q[i]);
        }
    }
}

/// A listing whose identities are all different keeps every template, in
/// order.
pub proof fn law_dedupe_keeps_distinct_keys<N>(ts: Seq<CalculateOrderTemplate<N>>)
    requires
        forall|a: int, b: int|
            0 <= a < b < ts.len() ==> template_key_spec(#[trigger] ts[a]) != template_key_spec(#[trigger] ts[b]),
    ensures
        dedupe_spec(ts) == ts,
    decreases ts.len(),
{
    if ts.len() > 0 {
        let init = ts.drop_last();
        assert forall|a: int, b: int|
            0 <= a < b < init.len() implies template_key_spec(#[trigger] init[a]) != template_key_spec(#[trigger] init[b]) by {
            assert(init[a] == ts[a] && init[b] == ts[b]);
        }
        law_dedupe_keeps_distinct_keys(init);
        assert forall|j: int| 0 <= j < ts.len() - 1 implies template_key_spec(#[trigger] ts[j]) != template_key_spec(
            ts[ts.len() - 1],
        ) by {}
        assert(kept(ts, ts.len() - 1));
        assert(init.push(ts.last()) =~= ts);
    }
}

/// The quick key carries the comparison form of `customer_ref` (trimmed, lowercased): changing it to another
/// form changes the identity of a template that has a product, so the two
/// templates are both kept in a listing.
pub proof fn law_quick_key_reads_customer_ref<N>(a: CalculateOrderTemplate<N>, x: String)
    requires
        product_key_spec(a).len() > 0,
        normalize_key_spec(x@) != normalize_key_spec(a.customer_ref@),
    ensures
        template_key_spec(CalculateOrderTemplate { customer_ref: x, ..a }) != template_key_spec(a),
        dedupe_spec(seq![a, CalculateOrderTemplate { customer_ref: x, ..a }]) == seq![a, CalculateOrderTemplate { customer_ref: x, ..a }],
{
    let b = CalculateOrderTemplate { customer_ref: x, ..a };
    assert(product_key_spec(b) == product_key_spec(a));
    let p = quick_key_parts(a);
    let q = quick_key_parts(b);
    assert forall|j: int| 0 <= j < p.len() && j != 1 implies p[j] == q[j] by {}
    assert(p[1] != q[1]);
    lemma_join_bar_one_part_differs(p, q, 1);
    let ts = seq![a, b];
    assert forall|i: int, j: int|
        0 <= i < j < ts.len() implies template_key_spec(#[trigger] ts[i]) != template_key_spec(#[trigger] ts[j]) by {
        assert(i == 0 && j == 1);
    }
    law_dedupe_keeps_distinct_keys(ts);
}

/// The quick key carries the comparison form of `customer` (trimmed, lowercased): changing it to another
/// form changes the identity of a template that has a product, so the two
/// templates are both kept in a listing.
pub proof fn law_quick_key_reads_customer<N>(a: CalculateOrderTemplate<N>, x: String)
    requires
        product_key_spec(a).len() > 0,
        normalize_key_spec(x@) != normalize_key_spec(a.customer@),
    ensures
        template_key_spec(CalculateOrderTemplate { customer: x, ..a }) != template_key_spec(a),
        dedupe_spec(seq![a, CalculateOrderTemplate { customer: x, ..a }]) == seq![a, CalculateOrderTemplate { customer: x, ..a }],
{
    let b = CalculateOrderTemplate { customer: x, ..a };
    assert(product_key_spec(b) == product_key_spec(a));
    let p = quick_key_parts(a);
    let q = quick_key_parts(b);
    assert forall|j: int| 0 <= j < p.len() && j != 2 implies p[j] == q[j] by {}
    assert(p[2] != q[2]);
    lemma_join_bar_one_part_differs(p, q, 2);
    let ts = seq![a, b];
    assert forall|i: int, j: int|
        0 <= i < j < ts.len() implies template_key_spec(#[trigger] ts[i]) != template_key_spec(#[trigger] ts[j]) by {
        assert(i == 0 && j == 1);
    }
    law_dedupe_keeps_distinct_keys(ts);
}

/// The quick key carries the comparison form of `status` (trimmed, lowercased): changing it to another
/// form changes the identity of a template that has a product, so the two
/// templates are both kept in a listing.
pub proof fn law_quick_key_reads_status<N>(a: CalculateOrderTemplate<N>, x: String)
    requires
        product_key_spec(a).len() > 0,
        normalize_key_spec(x@) != normalize_key_spec(a.status@),
    ensures
        template_key_spec(CalculateOrderTemplate { status: x, ..a }) != template_key_spec(a),
        dedupe_spec(seq![a, CalculateOrderTemplate { status: x, ..a }]) == seq![a, CalculateOrderTemplate { status: x, ..a }],
{
    let b = CalculateOrderTemplate { status: x, ..a };
    assert(product_key_spec(b) == product_key_spec(a));
    let p = quick_key_parts(a);
    let q = quick_key_parts(b);
    assert forall|j: int| 0 <= j < p.len() && j != 4 implies p[j] == q[j] by {}
    assert(p[4] != q[4]);
    lemma_join_bar_one_part_differs(p, q, 4);
    let ts = seq![a, b];
    assert forall|i: int, j: int|
        0 <= i < j < ts.len() implies template_key_spec(#[trigger] ts[i]) != template_key_spec(#[trigger] ts[j]) by {
        assert(i == 0 && j == 1);
    }
    law_dedupe_keeps_distinct_keys(ts);
}

/// The quick key carries the comparison form of `material_display` (trimmed, lowercased): changing it to another
/// form changes the identity of a template that has a product, so the two
/// templates are both kept in a listing.
pub proof fn law_quick_key_reads_material_display<N>(a: CalculateOrderTemplate<N>, x: String)
    requires
        product_key_spec(a).len() > 0,
        normalize_key_spec(x@) != normalize_key_spec(a.material_display@),
    ensures
        template_key_spec(CalculateOrderTemplate { material_display: x, ..a }) != template_key_spec(a),
        dedupe_spec(seq![a, CalculateOrderTemplate { material_display: x, ..a }]) == seq![a, CalculateOrderTemplate { material_display: x, ..a }],
{
    let b = CalculateOrderTemplate { material_display: x, ..a };
    assert(product_key_spec(b) == product_key_spec(a));
    let p = quick_key_parts(a);
    let q = quick_key_parts(b);
    assert forall|j: int| 0 <= j < p.len() && j != 5 implies p[j] == q[j] by {}
    assert(p[5] != q[5]);
    lemma_join_bar_one_part_differs(p, q, 5);
    let ts = seq![a, b];
    assert forall|i: int, j: int|
        0 <= i < j < ts.len() implies template_key_spec(#[trigger] ts[i]) != template_key_spec(#[trigger] ts[j]) by {
        assert(i == 0 && j == 1);
    }
    law_dedupe_keeps_distinct_keys(ts);
}

/// The quick key carries the comparison form of `color` (trimmed, lowercased): changing it to another
/// form changes the identity of a template that has a product, so the two
/// templates are both kept in a listing.
pub proof fn law_quick_key_reads_color<N>(a: CalculateOrderTemplate<N>, x: String)
    requires
        product_key_spec(a).len() > 0,
        normalize_key_spec(x@) != normalize_key_spec(a.color@),
    ensures
        template_key_spec(CalculateOrderTemplate { color: x, ..a }) != template_key_spec(a),
        dedupe_spec(seq![a, CalculateOrderTemplate { color: x, ..a }]) == seq![a, CalculateOrderTemplate { color: x, ..a }],
{
    let b = CalculateOrderTemplate { color: x, ..a };
    assert(product_key_spec(b) == product_key_spec(a));
    let p = quick_key_parts(a);
    let q = quick_key_parts(b);
    assert forall|j: int| 0 <= j < p.len() && j != 6 implies p[j] == q[j] by {}
    assert(p[6] != q[6]);
    lemma_join_bar_one_part_differs(p, q, 6);
    let ts = seq![a, b];
    assert forall|i: int, j: int|
        0 <= i < j < ts.len() implies template_key_spec(#[trigger] ts[i]) != template_key_spec(#[trigger] ts[j]) by {
        assert(i == 0 && j == 1);
    }
    law_dedupe_keeps_distinct_keys(ts);
}

/// The quick key carries the comparison form of `first_layer_material` (trimmed, lowercased): changing it to another
/// form changes the identity of a template that has a product, so the two
/// templates are both kept in a listing.
pub proof fn law_quick_key_reads_first_layer_material<N>(a: CalculateOrderTemplate<N>, x: String)
    requires
        product_key_spec(a).len() > 0,
        normalize_key_spec(x@) != normalize_key_spec(a.first_layer_material@),
    ensures
        template_key_spec(CalculateOrderTemplate { first_layer_material: x, ..a }) != template_key_spec(a),
        dedupe_spec(seq![a, CalculateOrderTemplate { first_layer_material: x, ..a }]) == seq![a, CalculateOrderTemplate { first_layer_material: x, ..a }],
{
    let b = CalculateOrderTemplate { first_layer_material: x, ..a };
    assert(product_key_spec(b) == product_key_spec(a));
    let p = quick_key_parts(a);
    let q = quick_key_parts(b);
    assert forall|j: int| 0 <= j < p.len() && j != 10 implies p[j] == q[j] by {}
    assert(p[10] != q[10]);
    lemma_join_bar_one_part_differs(p, q, 10);
    let ts = seq![a, b];
    assert forall|i: int, j: int|
        0 <= i < j < ts.len() implies template_key_spec(#[trigger] ts[i]) != template_key_spec(#[trigger] ts[j]) by {
        assert(i == 0 && j == 1);
    }
    law_dedupe_keeps_distinct_keys(ts);
}

/// The quick key carries the comparison form of `first_layer_micron` (trimmed, lowercased): changing it to another
/// form changes the identity of a template that has a product, so the two
/// templates are both kept in a listing.
pub proof fn law_quick_key_reads_first_layer_micron<N>(a: CalculateOrderTemplate<N>, x: String)
    requires
        product_key_spec(a).len() > 0,
        normalize_key_spec(x@) != normalize_key_spec(a.first_layer_micron@),
    ensures
        template_key_spec(CalculateOrderTemplate { first_layer_micron: x, ..a }) != template_key_spec(a),
        dedupe_spec(seq![a, CalculateOrderTemplate { first_layer_micron: x, ..a }]) == seq![a, CalculateOrderTemplate { first_layer_micron: x, ..a }],
{
    let b = CalculateOrderTemplate { first_layer_micron: x, ..a };
    assert(product_key_spec(b) == product_key_spec(a));
    let p = quick_key_parts(a);
    let q = quick_key_parts(b);
    assert forall|j: int| 0 <= j < p.len() && j != 11 implies p[j] == q[j] by {}
    assert(p[11] != q[11]);
    lemma_join_bar_one_part_differs(p, q, 11);
    let ts = seq![a, b];
    assert forall|i: int, j: int|
        0 <= i < j < ts.len() implies template_key_spec(#[trigger] ts[i]) != template_key_spec(#[trigger] ts[j]) by {
        assert(i == 0 && j == 1);
    }
    law_dedupe_keeps_distinct_keys(ts);
}

/// The quick key carries the comparison form of `second_layer_material` (trimmed, lowercased): changing it to another
/// form changes the identity of a template that has a product, so the two
/// templates are both kept in a listing.
pub proof fn law_quick_key_reads_second_layer_material<N>(a: CalculateOrderTemplate<N>, x: String)
    requires
        product_key_spec(a).len() > 0,
        normalize_key_spec(x@) != normalize_key_spec(a.second_layer_material@),
    ensures
        template_key_spec(CalculateOrderTemplate { second_layer_material: x, ..a }) != template_key_spec(a),
        dedupe_spec(seq![a, CalculateOrderTemplate { second_layer_material: x, ..a }]) == seq![a, CalculateOrderTemplate { second_layer_material: x, ..a }],
{
    let b = CalculateOrderTemplate { second_layer_material: x, ..a };
    assert(product_key_spec(b) == product_key_spec(a));
    let p = quick_key_parts(a);
    let q = quick_key_parts(b);
    assert forall|j: int| 0 <= j < p.len() && j != 12 implies p[j] == q[j] by {}
    assert(p[12] != q[12]);
    lemma_join_bar_one_part_differs(p, q, 12);
    let ts = seq![a, b];
    assert forall|i: int, j: int|
        0 <= i < j < ts.len() implies template_key_spec(#[trigger] ts[i]) != template_key_spec(#[trigger] ts[j]) by {
        assert(i == 0 && j == 1);
    }
    law_dedupe_keeps_distinct_keys(ts);
}

/// The quick key carries the comparison form of `second_layer_micron` (trimmed, lowercased): changing it to another
/// form changes the identity of a template that has a product, so the two
/// templates are both kept in a listing.
pub proof fn law_quick_key_reads_second_layer_micron<N>(a: CalculateOrderTemplate<N>, x: String)
    requires
        product_key_spec(a).len() > 0,
        normalize_key_spec(x@) != normalize_key_spec(a.second_layer_micron@),
    ensures
        template_key_spec(CalculateOrderTemplate { second_layer_micron: x, ..a }) != template_key_spec(a),
        dedupe_spec(seq![a, CalculateOrderTemplate { second_layer_micron: x, ..a }]) == seq![a, CalculateOrderTemplate { second_layer_micron: x, ..a }],
{
    let b = CalculateOrderTemplate { second_layer_micron: x, ..a };
    assert(product_key_spec(b) == product_key_spec(a));
    let p = quick_key_parts(a);
    let q = quick_key_parts(b);
    assert forall|j: int| 0 <= j < p.len() && j != 13 implies p[j] == q[j] by {}
    assert(p[13] != q[13]);
    lemma_join_bar_one_part_differs(p, q, 13);
    let ts = seq![a, b];
    assert forall|i: int, j: int|
        0 <= i < j < ts.len() implies template_key_spec(#[trigger] ts[i]) != template_key_spec(#[trigger] ts[j]) by {
        assert(i == 0 && j == 1);
    }
    law_dedupe_keeps_distinct_keys(ts);
}

/// The quick key carries the comparison form of `third_layer_material` (trimmed, lowercased): changing it to another
/// form changes the identity of a template that has a product, so the two
/// templates are both kept in a listing.
pub proof fn law_quick_key_reads_third_layer_material<N>(a: CalculateOrderTemplate<N>, x: String)
    requires
        product_key_spec(a).len() > 0,
        normalize_key_spec(x@) != normalize_key_spec(a.third_layer_material@),
    ensures
        template_key_spec(CalculateOrderTemplate { third_layer_material: x, ..a }) != template_key_spec(a),
        dedupe_spec(seq![a, CalculateOrderTemplate { third_layer_material: x, ..a }]) == seq![a, CalculateOrderTemplate { third_layer_material: x, ..a }],
{
    let b = CalculateOrderTemplate { third_layer_material: x, ..a };
    assert(product_key_spec(b) == product_key_spec(a));
    let p = quick_key_parts(a);
    let q = quick_key_parts(b);
    assert forall|j: int| 0 <= j < p.len() && j != 14 implies p[j] == q[j] by {}
    assert(p[14] != q[14]);
    lemma_join_bar_one_part_differs(p, q, 14);
    let ts = seq![a, b];
    assert forall|i: int, j: int|
        0 <= i < j < ts.len() implies template_key_spec(#[trigger] ts[i]) != template_key_spec(#[trigger] ts[j]) by {
        assert(i == 0 && j == 1);
    }
    law_dedupe_keeps_distinct_keys(ts);
}

/// The quick key carries the comparison form of `third_layer_micron` (trimmed, lowercased): changing it to another
/// form changes the identity of a template that has a product, so the two
/// templates are both kept in a listing.
pub proof fn law_quick_key_reads_third_layer_micron<N>(a: CalculateOrderTemplate<N>, x: String)
    requires
        product_key_spec(a).len() > 0,
        normalize_key_spec(x@) != normalize_key_spec(a.third_layer_micron@),
    ensures
        template_key_spec(CalculateOrderTemplate { third_layer_micron: x, ..a }) != template_key_spec(a),
        dedupe_spec(seq![a, CalculateOrderTemplate { third_layer_micron: x, ..a }]) == seq![a, CalculateOrderTemplate { third_layer_micron: x, ..a }],
{
    let b = CalculateOrderTemplate { third_layer_micron: x, ..a };
    assert(product_key_spec(b) == product_key_spec(a));
    let p = quick_key_parts(a);
    let q = quick_key_parts(b);
    assert forall|j: int| 0 <= j < p.len() && j != 15 implies p[j] == q[j] by {}
    assert(p[15] != q[15]);
    lemma_join_bar_one_part_differs(p, q, 15);
    let ts = seq![a, b];
    assert forall|i: int, j: int|
        0 <= i < j < ts.len() implies template_key_spec(#[trigger] ts[i]) != template_key_spec(#[trigger] ts[j]) by {
        assert(i == 0 && j == 1);
    }
    law_dedupe_keeps_distinct_keys(ts);
}

/// The quick key carries the comparison form of `note` (trimmed, lowercased): changing it to another
/// form changes the identity of a template that has a product, so the two
/// templates are both kept in a listing.
pub proof fn law_quick_key_reads_note<N>(a: CalculateOrderTemplate<N>, x: String)
    requires
        product_key_spec(a).len() > 0,
        normalize_key_spec(x@) != normalize_key_spec(a.note@),
    ensures
        template_key_spec(CalculateOrderTemplate { note: x, ..a }) != template_key_spec(a),
        dedupe_spec(seq![a, CalculateOrderTemplate { note: x, ..a }]) == seq![a, CalculateOrderTemplate { note: x, ..a }],
{
    let b = CalculateOrderTemplate { note: x, ..a };
    assert(product_key_spec(b) == product_key_spec(a));
    let p = quick_key_parts(a);
    let q = quick_key_parts(b);
    assert forall|j: int| 0 <= j < p.len() && j != 16 implies p[j] == q[j] by {}
    assert(p[16] != q[16]);
    lemma_join_bar_one_part_differs(p, q, 16);
    let ts = seq![a, b];
    assert forall|i: int, j: int|
        0 <= i < j < ts.len() implies template_key_spec(#[trigger] ts[i]) != template_key_spec(#[trigger] ts[j]) by {
        assert(i == 0 && j == 1);
    }
    law_dedupe_keeps_distinct_keys(ts);
}

/// The quick key carries the rendering `width_mm_key`: changing it to another
/// form changes the identity of a template that has a product, so the two
/// templates are both kept in a listing.
pub proof fn law_quick_key_reads_width_mm_key<N>(a: CalculateOrderTemplate<N>, x: String)
    requires
        product_key_spec(a).len() > 0,
        x@ != a.width_mm_key@,
    ensures
        template_key_spec(CalculateOrderTemplate { width_mm_key: x, ..a }) != template_key_spec(a),
        dedupe_spec(seq![a, CalculateOrderTemplate { width_mm_key: x, ..a }]) == seq![a, CalculateOrderTemplate { width_mm_key: x, ..a }],
{
    let b = CalculateOrderTemplate { width_mm_key: x, ..a };
    assert(product_key_spec(b) == product_key_spec(a));
    let p = quick_key_parts(a);
    let q = quick_key_parts(b);
    assert forall|j: int| 0 <= j < p.len() && j != 7 implies p[j] == q[j] by {}
    assert(p[7] != q[7]);
    lemma_join_bar_one_part_differs(p, q, 7);
    let ts = seq![a, b];
    assert forall|i: int, j: int|
        0 <= i < j < ts.len() implies template_key_spec(#[trigger] ts[i]) != template_key_spec(#[trigger] ts[j]) by {
        assert(i == 0 && j == 1);
    }
    law_dedupe_keeps_distinct_keys(ts);
}

/// The quick key carries the rendering `waste_percent_key`: changing it to another
/// form changes the identity of a template that has a product, so the two
/// templates are both kept in a listing.
pub proof fn law_quick_key_reads_waste_percent_key<N>(a: CalculateOrderTemplate<N>, x: String)
    requires
        product_key_spec(a).len() > 0,
        x@ != a.waste_percent_key@,
    ensures
        template_key_spec(CalculateOrderTemplate { waste_percent_key: x, ..a }) != template_key_spec(a),
        dedupe_spec(seq![a, CalculateOrderTemplate { waste_percent_key: x, ..a }]) == seq![a, CalculateOrderTemplate { waste_percent_key: x, ..a }],
{
    let b = CalculateOrderTemplate { waste_percent_key: x, ..a };
    assert(product_key_spec(b) == product_key_spec(a));
    let p = quick_key_parts(a);
    let q = quick_key_parts(b);
    assert forall|j: int| 0 <= j < p.len() && j != 8 implies p[j] == q[j] by {}
    assert(p[8] != q[8]);
    lemma_join_bar_one_part_differs(p, q, 8);
    let ts = seq![a, b];
    assert forall|i: int, j: int|
        0 <= i < j < ts.len() implies template_key_spec(#[trigger] ts[i]) != template_key_spec(#[trigger] ts[j]) by {
        assert(i == 0 && j == 1);
    }
    law_dedupe_keeps_distinct_keys(ts);
}

/// The quick key carries the rendering `roll_count_key`: changing it to another
/// form changes the identity of a template that has a product, so the two
/// templates are both kept in a listing.
pub proof fn law_quick_key_reads_roll_count_key<N>(a: CalculateOrderTemplate<N>, x: String)
    requires
        product_key_spec(a).len() > 0,
        x@ != a.roll_count_key@,
    ensures
        template_key_spec(CalculateOrderTemplate { roll_count_key: x, ..a }) != template_key_spec(a),
        dedupe_spec(seq![a, CalculateOrderTemplate { roll_count_key: x, ..a }]) == seq![a, CalculateOrderTemplate { roll_count_key: x, ..a }],
{
    let b = CalculateOrderTemplate { roll_count_key: x, ..a };
    assert(product_key_spec(b) == product_key_spec(a));
    let p = quick_key_parts(a);
    let q = quick_key_parts(b);
    assert forall|j: int| 0 <= j < p.len() && j != 9 implies p[j] == q[j] by {}
    assert(p[9] != q[9]);
    lemma_join_bar_one_part_differs(p, q, 9);
    let ts = seq![a, b];
    assert forall|i: int, j: int|
        0 <= i < j < ts.len() implies template_key_spec(#[trigger] ts[i]) != template_key_spec(#[trigger] ts[j]) by {
        assert(i == 0 && j == 1);
    }
    law_dedupe_keeps_distinct_keys(ts);
}

/// The quick key carries the product: two templates with item codes whose
/// comparison forms are both non-empty and differ have different
/// identities, whatever else they share, and are both kept in a listing.
pub proof fn law_quick_key_reads_item_code<N>(a: CalculateOrderTemplate<N>, x: String)
    requires
        normalize_key_spec(a.item_code@).len() > 0,
        normalize_key_spec(x@).len() > 0,
        normalize_key_spec(x@) != normalize_key_spec(a.item_code@),
    ensures
        template_key_spec(CalculateOrderTemplate { item_code: x, ..a }) != template_key_spec(a),
        dedupe_spec(seq![a, CalculateOrderTemplate { item_code: x, ..a }]) == seq![a, CalculateOrderTemplate { item_code: x, ..a }],
{
    let b = CalculateOrderTemplate { item_code: x, ..a };
    let p = quick_key_parts(a);
    let q = quick_key_parts(b);
    assert forall|j: int| 0 <= j < p.len() && j != 3 implies p[j] == q[j] by {}
    assert(p[3] != q[3]);
    lemma_join_bar_one_part_differs(p, q, 3);
    let ts = seq![a, b];
    assert forall|i: int, j: int|
        0 <= i < j < ts.len() implies template_key_spec(#[trigger] ts[i]) != template_key_spec(#[trigger] ts[j]) by {
        assert(i == 0 && j == 1);
    }
    law_dedupe_keeps_distinct_keys(ts);
}

proof fn lemma_dedupe_from<N>(ts: Seq<CalculateOrderTemplate<N>>)
    ensures
        forall|a: int| 0 <= a < dedupe_spec(ts).len() ==> exists|j: int| 0 <= j < ts.len() && ts[j] == #[trigger] dedupe_spec(ts)[a],
    decreases ts.len(),
{
    if ts.len() > 0 {
        lemma_dedupe_from(ts.drop_last());
        let d = dedupe_spec(ts);
        let dp = dedupe_spec(ts.drop_last());
        assert forall|a: int| 0 <= a < d.len() implies exists|j: int| 0 <= j < ts.len() && ts[j] == #[trigger] d[a] by {
            if a < dp.len() {
                assert(d[a] == dp[a]);
                let j = choose|j: int| 0 <= j < ts.drop_last().len() && ts.drop_last()[j] == dp[a];
                assert(ts[j] == ts.drop_last()[j]);
            } else {
                assert(d[a] == ts[ts.len() - 1]);
            }
        }
    }
}

/// A template as stored: `id`, the stored id to keep (when not blank), else
/// its own trimmed id, else `id_micros` in decimal; its text fields trimmed;
/// `saved_at` set to `saved_micros` in decimal; everything else unchanged.
pub open spec fn stamped<N>(
    t: CalculateOrderTemplate<N>,
    existing_id: Option<String>,
    id_micros: u128,
    saved_micros: u128,
    r: CalculateOrderTemplate<N>,
) -> bool {
    &&& r.id@ == match existing_id {
        Some(e) => if trim(e@).len() > 0 {
            e@
        } else if trim(t.id@).len() > 0 {
            trim(t.id@)
        } else {
            decimal(id_micros as nat)
        },
        None => if trim(t.id@).len() > 0 {
            trim(t.id@)
        } else {
            decimal(id_micros as nat)
        },
    }
    &&& r.code@ == trim(t.code@)
    &&& r.name@ == trim(t.name@)
    &&& r.saved_at@ == decimal(saved_micros as nat)
    &&& r.order_number@ == trim(t.order_number@)
    &&& r.customer_ref@ == trim(t.customer_ref@)
    &&& r.customer@ == trim(t.customer@)
    &&& r.item_code@ == trim(t.item_code@)
    &&& r.product@ == trim(t.product@)
    &&& r.status@ == trim(t.status@)
    &&& r.material_display@ == trim(t.material_display@)
    &&& r.color@ == trim(t.color@)
    &&& r.image_id@ == trim(t.image_id@)
    &&& r.image_name@ == trim(t.image_name@)
    &&& r.image_mime@ == trim(t.image_mime@)
    &&& r.image_size_bytes == t.image_size_bytes
    &&& r.image_url@ == trim(t.image_url@)
    &&& r.width_mm == t.width_mm
    &&& r.waste_percent == t.waste_percent
    &&& r.roll_count == t.roll_count
    &&& r.width_mm_key == t.width_mm_key
    &&& r.waste_percent_key == t.waste_percent_key
    &&& r.roll_count_key == t.roll_count_key
    &&& r.first_layer_material@ == trim(t.first_layer_material@)
    &&& r.first_layer_micron@ == trim(t.first_layer_micron@)
    &&& r.second_layer_material@ == trim(t.second_layer_material@)
    &&& r.second_layer_micron@ == trim(t.second_layer_micron@)
    &&& r.third_layer_material@ == trim(t.third_layer_material@)
    &&& r.third_layer_micron@ == trim(t.third_layer_micron@)
    &&& r.note@ == trim(t.note@)
    &&& r.kg == t.kg
    &&& r.source_map_id@ == trim(t.source_map_id@)
}

fn trimmed(s: &String) -> (r: String)
    ensures
        r@ == trim(s@),
{
    string_of(trim_chars(chars_of(s.as_str()).as_slice()).as_slice())
}

fn decimal_string(n: u128) -> (r: String)
    ensures
        r@ == decimal(n as nat),
{
    let mut v: Vec<char> = Vec::new();
    push_decimal(&mut v, n);
    string_of(v.as_slice())
}

/// `template` stamped for storage, with the given clock readings.
pub fn stamp_template_at<N>(
    template: CalculateOrderTemplate<N>,
    existing_id: Option<String>,
    id_micros: u128,
    saved_micros: u128,
) -> (r: CalculateOrderTemplate<N>)
    ensures
        stamped(template, existing_id, id_micros, saved_micros, r),
{
    let ghost t0 = template;
    let ghost e0 = existing_id;
    let own_id = trimmed(&template.id);
    let id = match existing_id {
        Some(e) => {
            if trim_chars(chars_of(e.as_str()).as_slice()).len() > 0 {
                e
            } else if !own_id.as_str().is_empty() {
                own_id
            } else {
                decimal_string(id_micros)
            }
        },
        None => {
            if !own_id.as_str().is_empty() {
                own_id
            } else {
                decimal_string(id_micros)
            }
        },
    };
    CalculateOrderTemplate {
        id,
        code: trimmed(&template.code),
        name: trimmed(&template.name),
        saved_at: decimal_string(saved_micros),
        order_number: trimmed(&template.order_number),
        customer_ref: trimmed(&template.customer_ref),
        customer: trimmed(&template.customer),
        item_code: trimmed(&template.item_code),
        product: trimmed(&template.product),
        status: trimmed(&template.status),
        material_display: trimmed(&template.material_display),
        color: trimmed(&template.color),
        image_id: trimmed(&template.image_id),
        image_name: trimmed(&template.image_name),
        image_mime: trimmed(&template.image_mime),
        image_size_bytes: template.image_size_bytes,
        image_url: trimmed(&template.image_url),
        first_layer_material: trimmed(&template.first_layer_material),
        first_layer_micron: trimmed(&template.first_layer_micron),
        second_layer_material: trimmed(&template.second_layer_material),
        second_layer_micron: trimmed(&template.second_layer_micron),
        third_layer_material: trimmed(&template.third_layer_material),
        third_layer_micron: trimmed(&template.third_layer_micron),
        note: trimmed(&template.note),
        source_map_id: trimmed(&template.source_map_id),
        width_mm: template.width_mm,
        waste_percent: template.waste_percent,
        roll_count: template.roll_count,
        width_mm_key: template.width_mm_key,
        waste_percent_key: template.waste_percent_key,
        roll_count_key: template.roll_count_key,
        kg: template.kg,
    }
}

/// `template` stamped for storage at the current time.
pub fn stamp_template<N>(template: CalculateOrderTemplate<N>, existing_id: Option<String>) -> (r:
    CalculateOrderTemplate<N>)
    ensures
        exists|a: u128, b: u128| stamped(template, existing_id, a, b, r),
{
    let id_micros = crate::calculate::unix_micros();
    let saved_micros = crate::calculate::unix_micros();
    stamp_template_at(template, existing_id, id_micros, saved_micros)
}

/// The code given to a template saved without one: `Z-` and a decimal
/// clock reading.
pub fn with_code_at<N>(template: CalculateOrderTemplate<N>, micros: u128) -> (r: CalculateOrderTemplate<N>)
    ensures
        trim(template.code@).len() == 0 ==> r == (CalculateOrderTemplate { code: r.code, ..template })
            && r.code@ == "Z-"@ + decimal(micros as nat),
        trim(template.code@).len() > 0 ==> r == template,
{
    let mut t = template;
    if trim_chars(chars_of(t.code.as_str()).as_slice()).len() == 0 {
        let mut v = chars_of("Z-");
        push_decimal(&mut v, micros);
        t.code = string_of(v.as_slice());
    }
    t
}

/// A fresh template id: the current time in microseconds, in decimal.
pub fn new_id() -> (r: String)
    ensures
        exists|m: u128| r@ == decimal(m as nat),
{
    let m = crate::calculate::unix_micros();
    decimal_string(m)
}

/// `template` with a code: its own, or `Z-` and a fresh id when it has
/// none.
pub fn with_default_code<N>(template: CalculateOrderTemplate<N>) -> (r: CalculateOrderTemplate<N>)
    ensures
        trim(template.code@).len() == 0 ==> r == (CalculateOrderTemplate { code: r.code, ..template })
            && exists|m: u128| r.code@ == "Z-"@ + decimal(m as nat),
        trim(template.code@).len() > 0 ==> r == template,
{
    let m = crate::calculate::unix_micros();
    with_code_at(template, m)
}

} // verus!

//! The service catalogue: grouping the flat services collection into
//! categories, alphabetically by category name, each carrying its services
//! as subcategories in store order.

use vstd::prelude::*;
use crate::errors::{ApiError, STATUS_NOT_FOUND};
use crate::text::{bytes_eq, append_bytes};

verus! {

/// A service as the store holds it.
pub struct Service {
    pub id: Vec<u8>,
    pub service_id: String,
    pub name: String,
    pub service_category: Vec<u8>,
    pub price: String,
    pub rating: String,
    pub description: String,
    pub icon: String,
    pub color: String,
}

/// One service presented inside its category.
pub struct SubCategoryResponse {
    pub id: Vec<u8>,
    pub name: String,
    pub description: Option<String>,
}

/// A category with the services grouped under it.
pub struct CategoryResponse {
    pub id: Vec<u8>,
    pub name: Vec<u8>,
    pub description: Option<String>,
    pub icon: Option<String>,
    pub subcategories: Vec<SubCategoryResponse>,
}

/// Lexicographic byte order: the usual dictionary order, shorter prefixes
/// first.
pub open spec fn lex_le(a: Seq<u8>, b: Seq<u8>) -> bool
    decreases a.len(),
{
    if a.len() == 0 {
        true
    } else if b.len() == 0 {
        false
    } else if a[0] < b[0] {
        true
    } else if a[0] > b[0] {
        false
    } else {
        lex_le(a.skip(1), b.skip(1))
    }
}

/// Any two byte strings compare.
pub proof fn lemma_lex_total(a: Seq<u8>, b: Seq<u8>)
    ensures
        lex_le(a, b) || lex_le(b, a),
    decreases a.len(),
{
    if a.len() > 0 && b.len() > 0 && a[0] == b[0] {
        lemma_lex_total(a.skip(1), b.skip(1));
    }
}

/// The order is transitive.
pub proof fn lemma_lex_trans(a: Seq<u8>, b: Seq<u8>, c: Seq<u8>)
    requires
        lex_le(a, b),
        lex_le(b, c),
    ensures
        lex_le(a, c),
    decreases a.len(),
{
    if a.len() > 0 {
        if b.len() > 0 && c.len() > 0 && a[0] == b[0] && b[0] == c[0] {
            lemma_lex_trans(a.skip(1), b.skip(1), c.skip(1));
        }
    }
}

/// Matching prefixes reduce the comparison to the tails.
proof fn lemma_lex_skip(a: Seq<u8>, b: Seq<u8>, i: int)
    requires
        0 <= i <= a.len(),
        i <= b.len(),
        forall|j: int| 0 <= j < i ==> a[j] == b[j],
    ensures
        lex_le(a, b) == lex_le(a.skip(i), b.skip(i)),
    decreases i,
{
    if i > 0 {
        assert(a.skip(1).skip(i - 1) =~= a.skip(i));
        assert(b.skip(1).skip(i - 1) =~= b.skip(i));
        lemma_lex_skip(a.skip(1), b.skip(1), i - 1);
    } else {
        assert(a.skip(0) =~= a);
        assert(b.skip(0) =~= b);
    }
}

/// Dictionary comparison of two byte strings.
pub fn lex_leq(a: &[u8], b: &[u8]) -> (r: bool)
    ensures
        r == lex_le(a@, b@),
{
    let n = if a.len() < b.len() {
        a.len()
    } else {
        b.len()
    };
    for i in 0..n
        invariant
            n == (if a@.len() < b@.len() { a@.len() } else { b@.len() }),
            forall|j: int| 0 <= j < i ==> a@[j] == b@[j],
    {
        if a[i] < b[i] {
            proof {
                lemma_lex_skip(a@, b@, i as int);
            }
            return true;
        }
        if a[i] > b[i] {
            proof {
                lemma_lex_skip(a@, b@, i as int);
            }
            return false;
        }
    }
    proof {
        lemma_lex_skip(a@, b@, n as int);
    }
    a.len() <= b.len()
}

/// Whether some service carries this category name.
pub open spec fn has_category(ss: Seq<Service>, c: Seq<u8>) -> bool {
    exists|i: int| 0 <= i < ss.len() && #[trigger] ss[i].service_category@ == c
}

/// The services of one category, in store order.
pub open spec fn filter_category(ss: Seq<Service>, c: Seq<u8>) -> Seq<Service>
    decreases ss.len(),
{
    if ss.len() == 0 {
        Seq::empty()
    } else {
        let prefix = filter_category(ss.drop_last(), c);
        if ss.last().service_category@ == c {
            prefix.push(ss.last())
        } else {
            prefix
        }
    }
}

/// A filter over a non-empty match set keeps its first match first.
proof fn lemma_filter_category_first(ss: Seq<Service>, c: Seq<u8>)
    requires
        has_category(ss, c),
    ensures
        filter_category(ss, c).len() > 0,
        exists|i: int|
            {
                &&& 0 <= i < ss.len()
                &&& (#[trigger] ss[i]).service_category@ == c
                &&& filter_category(ss, c)[0] == ss[i]
                &&& forall|j: int| 0 <= j < i ==> ss[j].service_category@ != c
            },
    decreases ss.len(),
{
    if ss.len() > 0 {
        if has_category(ss.drop_last(), c) {
            lemma_filter_category_first(ss.drop_last(), c);
            let i = choose|i: int|
                {
                    &&& 0 <= i < ss.drop_last().len()
                    &&& (#[trigger] ss.drop_last()[i]).service_category@ == c
                    &&& filter_category(ss.drop_last(), c)[0] == ss.drop_last()[i]
                    &&& forall|j: int| 0 <= j < i ==> ss.drop_last()[j].service_category@ != c
                };
            assert(ss.drop_last()[i] == ss[i]);
            assert forall|j: int| 0 <= j < i implies ss[j].service_category@ != c by {
                assert(ss.drop_last()[j] == ss[j]);
            }
            assert(0 <= i < ss.len() && (#[trigger] ss[i]).service_category@ == c
                && filter_category(ss, c)[0] == ss[i] && (forall|j: int|
                0 <= j < i ==> ss[j].service_category@ != c));
        } else {
            assert(ss.last().service_category@ == c) by {
                let w = choose|w: int|
                    0 <= w < ss.len() && (#[trigger] ss[w]).service_category@ == c;
                if w < ss.len() - 1 {
                    assert(ss.drop_last()[w].service_category@ == c);
                    assert(false);
                }
            }
            assert(filter_category(ss.drop_last(), c) =~= Seq::<Service>::empty()) by {
                if filter_category(ss.drop_last(), c).len() > 0 {
                    lemma_filter_nonempty_has(ss.drop_last(), c);
                }
            }
            let i = ss.len() - 1;
            assert forall|j: int| 0 <= j < i implies ss[j].service_category@ != c by {
                if ss[j].service_category@ == c {
                    assert(ss.drop_last()[j].service_category@ == c);
                }
            }
            assert(0 <= i < ss.len() && (#[trigger] ss[i]).service_category@ == c
                && filter_category(ss, c)[0] == ss[i] && (forall|j: int|
                0 <= j < i ==> ss[j].service_category@ != c));
        }
    }
}

/// Whatever the filter keeps came from a matching service.
proof fn lemma_filter_nonempty_has(ss: Seq<Service>, c: Seq<u8>)
    requires
        filter_category(ss, c).len() > 0,
    ensures
        has_category(ss, c),
    decreases ss.len(),
{
    if ss.len() > 0 {
        if ss.last().service_category@ == c {
        } else {
            lemma_filter_nonempty_has(ss.drop_last(), c);
        }
    }
}

/// A category entry agrees with the store: it is named after its category,
/// carries the first matching service's icon, and lists exactly that
/// category's services, in store order.
pub open spec fn entry_matches(e: CategoryResponse, ss: Seq<Service>) -> bool {
    let f = filter_category(ss, e.name@);
    &&& e.id@ == e.name@
    &&& e.description is None
    &&& f.len() > 0
    &&& (e.icon matches Some(ic) && ic@ == f[0].icon@)
    &&& e.subcategories@.len() == f.len()
    &&& (forall|k: int|
        0 <= k < f.len() ==> {
            &&& (#[trigger] e.subcategories@[k]).id@ == f[k].id@
            &&& e.subcategories@[k].name@ == f[k].name@
            &&& (e.subcategories@[k].description matches Some(d) && d@ == f[k].description@)
        })
}

/// Builds the subcategory entries of one category.
fn collect_category(services: &Vec<Service>, name: &[u8]) -> (r: (Vec<SubCategoryResponse>, Option<
    String,
>))
    ensures
        ({
            let f = filter_category(services@, name@);
            &&& r.0@.len() == f.len()
            &&& (forall|k: int|
                0 <= k < f.len() ==> {
                    &&& (#[trigger] r.0@[k]).id@ == f[k].id@
                    &&& r.0@[k].name@ == f[k].name@
                    &&& (r.0@[k].description matches Some(d) && d@ == f[k].description@)
                })
            &&& f.len() > 0 ==> (r.1 matches Some(ic) && ic@ == f[0].icon@)
            &&& f.len() == 0 ==> r.1 is None
        }),
{
    let mut subs: Vec<SubCategoryResponse> = Vec::new();
    let mut icon: Option<String> = None;
    let n = services.len();
    proof {
        assert(services@.take(0) =~= Seq::<Service>::empty());
    }
    for i in 0..n
        invariant
            n == services@.len(),
            ({
                let f = filter_category(services@.take(i as int), name@);
                &&& subs@.len() == f.len()
                &&& (forall|k: int|
                    0 <= k < f.len() ==> {
                        &&& (#[trigger] subs@[k]).id@ == f[k].id@
                        &&& subs@[k].name@ == f[k].name@
                        &&& (subs@[k].description matches Some(d) && d@ == f[k].description@)
                    })
                &&& f.len() > 0 ==> (icon matches Some(ic) && ic@ == f[0].icon@)
                &&& f.len() == 0 ==> icon is None
            }),
    {
        proof {
            assert(services@.take(i + 1).drop_last() =~= services@.take(i as int));
            assert(services@.take(i + 1).last() == services@[i as int]);
        }
        let s = &services[i];
        if bytes_eq(s.service_category.as_slice(), name) {
            let mut id_copy: Vec<u8> = Vec::new();
            append_bytes(&mut id_copy, s.id.as_slice());
            proof {
                assert(id_copy@ =~= s.id@);
            }
            if subs.len() == 0 {
                icon = Some(s.icon.clone());
            }
            subs.push(SubCategoryResponse {
                id: id_copy,
                name: s.name.clone(),
                description: Some(s.description.clone()),
            });
        }
    }
    proof {
        assert(services@.take(n as int) =~= services@);
    }
    (subs, icon)
}

/// Groups the services by category: one entry per distinct category name,
/// alphabetical, each listing its services in store order with the first
/// one's icon.
pub fn group_services_by_category(services: &Vec<Service>) -> (r: Vec<CategoryResponse>)
    ensures
        forall|i: int, j: int|
            0 <= i < j < r@.len() ==> lex_le((#[trigger] r@[i]).name@, (#[trigger] r@[j]).name@)
                && r@[i].name@ != r@[j].name@,
        forall|i: int| 0 <= i < r@.len() ==> has_category(services@, (#[trigger] r@[i]).name@),
        forall|i: int|
            0 <= i < services@.len() ==> exists|k: int|
                0 <= k < r@.len() && r@[k].name@ == (#[trigger] services@[i]).service_category@,
        forall|i: int| 0 <= i < r@.len() ==> entry_matches(#[trigger] r@[i], services@),
{
    // distinct category names, in order of first appearance
    let mut names: Vec<Vec<u8>> = Vec::new();
    let n = services.len();
    for i in 0..n
        invariant
            n == services@.len(),
            forall|a: int, b: int| 0 <= a < b < names@.len() ==> names@[a]@ != names@[b]@,
            forall|a: int|
                0 <= a < names@.len() ==> has_category(
                    services@.take(i as int),
                    (#[trigger] names@[a])@,
                ),
            forall|j: int|
                0 <= j < i ==> has_name(names@, (#[trigger] services@[j]).service_category@),
    {
        let mut seen = false;
        let m = names.len();
        for a in 0..m
            invariant
                m == names@.len(),
                seen ==> has_name(names@, services@[i as int].service_category@),
                !seen ==> forall|b: int|
                    0 <= b < a ==> (#[trigger] names@[b])@ != services@[i as int].service_category@,
                i < n == services@.len(),
        {
            if bytes_eq(names[a].as_slice(), services[i].service_category.as_slice()) {
                seen = true;
                proof {
                    assert((#[trigger] names@[a as int])@
                        == services@[i as int].service_category@);
                }
            }
        }
        let ghost names0 = names@;
        if !seen {
            let mut name_copy: Vec<u8> = Vec::new();
            append_bytes(&mut name_copy, services[i].service_category.as_slice());
            proof {
                assert(name_copy@ =~= services@[i as int].service_category@);
            }
            names.push(name_copy);
        }
        proof {
            assert(services@.take(i + 1)[i as int] == services@[i as int]);
            assert forall|a: int| 0 <= a < names@.len() implies has_category(
                services@.take(i + 1),
                (#[trigger] names@[a])@,
            ) by {
                if a < names0.len() {
                    assert(names@[a] == names0[a]);
                    let w = choose|w: int|
                        0 <= w < services@.take(i as int).len() && (#[trigger] services@.take(
                            i as int,
                        )[w]).service_category@ == names0[a]@;
                    assert(services@.take(i + 1)[w].service_category@ == names@[a]@);
                } else {
                    assert(names@[a]@ == services@[i as int].service_category@);
                    assert(services@.take(i + 1)[i as int].service_category@ == names@[a]@);
                }
            }
            assert forall|j: int| 0 <= j < i + 1 implies has_name(
                names@,
                (#[trigger] services@[j]).service_category@,
            ) by {
                if j < i {
                    assert(has_name(names0, services@[j].service_category@));
                    let a = choose|a: int|
                        0 <= a < names0.len() && (#[trigger] names0[a])@
                            == services@[j].service_category@;
                    assert((names@[a])@ == services@[j].service_category@);
                } else {
                    if seen {
                        assert(has_name(names0, services@[i as int].service_category@));
                        let a = choose|a: int|
                            0 <= a < names0.len() && (#[trigger] names0[a])@
                                == services@[i as int].service_category@;
                        assert((names@[a])@ == services@[j].service_category@);
                    } else {
                        assert((names@[names@.len() - 1])@ == services@[j].service_category@);
                    }
                }
            }
        }
    }
    proof {
        assert(services@.take(n as int) =~= services@);
    }
    // selection sort into alphabetical order
    let mut rest = names;
    let mut ordered: Vec<Vec<u8>> = Vec::new();
    proof {
        assert forall|c: Seq<u8>| #[trigger] has_name(ordered@, c) || has_name(rest@, c)
            <==> has_category(services@, c) by {
            if has_name(rest@, c) {
                let a = choose|a: int| 0 <= a < rest@.len() && (#[trigger] rest@[a])@ == c;
                assert(has_category(services@, rest@[a]@));
            }
            if has_category(services@, c) {
                let i = choose|i: int|
                    0 <= i < services@.len() && (#[trigger] services@[i]).service_category@ == c;
                assert(has_name(rest@, services@[i].service_category@));
            }
        }
    }
    while rest.len() > 0
        invariant
            forall|a: int, b: int|
                0 <= a < b < ordered@.len() ==> lex_le((#[trigger] ordered@[a])@, (
                #[trigger] ordered@[b])@) && ordered@[a]@ != ordered@[b]@,
            forall|a: int, b: int|
                0 <= a < ordered@.len() && 0 <= b < rest@.len() ==> lex_le(
                    (#[trigger] ordered@[a])@,
                    (#[trigger] rest@[b])@,
                ) && ordered@[a]@ != rest@[b]@,
            forall|a: int, b: int| 0 <= a < b < rest@.len() ==> rest@[a]@ != rest@[b]@,
            forall|c: Seq<u8>|
                #[trigger] has_name(ordered@, c) || has_name(rest@, c) <==> has_category(
                    services@,
                    c,
                ),
        decreases rest@.len(),
    {
        // find the least remaining name
        let mut min: usize = 0;
        let k = rest.len();
        proof {
            lemma_lex_total(rest@[0]@, rest@[0]@);
        }
        for a in 1..k
            invariant
                k == rest@.len(),
                min < a <= k,
                forall|b: int| 0 <= b < a ==> lex_le(rest@[min as int]@, (#[trigger] rest@[b])@),
        {
            let smaller = lex_leq(rest[a].as_slice(), rest[min].as_slice());
            if smaller {
                proof {
                    lemma_lex_total(rest@[a as int]@, rest@[a as int]@);
                    assert forall|b: int| 0 <= b < a + 1 implies lex_le(
                        rest@[a as int]@,
                        (#[trigger] rest@[b])@,
                    ) by {
                        if b < a {
                            lemma_lex_trans(rest@[a as int]@, rest@[min as int]@, rest@[b]@);
                        }
                    }
                }
                min = a;
            } else {
                proof {
                    lemma_lex_total(rest@[a as int]@, rest@[min as int]@);
                }
            }
        }
        let ghost prev_rest = rest@;
        let ghost prev_ordered = ordered@;
        let picked = rest.remove(min);
        ordered.push(picked);
        proof {
            let po = ordered@;
            let pr = rest@;
            assert(po.len() == prev_ordered.len() + 1);
            assert(po[po.len() - 1]@ == prev_rest[min as int]@);
            assert forall|a: int, b: int|
                0 <= a < b < po.len() implies lex_le((#[trigger] po[a])@, (#[trigger] po[b])@)
                && po[a]@ != po[b]@ by {
                if b == po.len() - 1 {
                    assert(po[a] == prev_ordered[a]);
                    assert(lex_le(prev_ordered[a]@, prev_rest[min as int]@));
                    assert(prev_ordered[a]@ != prev_rest[min as int]@);
                } else {
                    assert(po[a] == prev_ordered[a] && po[b] == prev_ordered[b]);
                }
            }
            assert forall|a: int, b: int|
                0 <= a < po.len() && 0 <= b < pr.len() implies lex_le(
                (#[trigger] po[a])@,
                (#[trigger] pr[b])@,
            ) && po[a]@ != pr[b]@ by {
                let rb = if b < min { b } else { b + 1 };
                assert(pr[b] == prev_rest[rb]);
                if a == po.len() - 1 {
                    assert(po[a]@ == prev_rest[min as int]@);
                    assert(lex_le(prev_rest[min as int]@, prev_rest[rb]@));
                    assert(prev_rest[min as int]@ != prev_rest[rb]@);
                } else {
                    assert(po[a] == prev_ordered[a]);
                }
            }
            assert forall|a: int, b: int| 0 <= a < b < pr.len() implies pr[a]@ != pr[b]@ by {
                let ra = if a < min { a } else { a + 1 };
                let rb = if b < min { b } else { b + 1 };
                assert(pr[a] == prev_rest[ra] && pr[b] == prev_rest[rb]);
            }
            assert forall|c: Seq<u8>|
                #[trigger] has_name(po, c) || has_name(pr, c) <==> has_category(
                services@,
                c,
            ) by {
                assert(has_name(prev_ordered, c) || has_name(prev_rest, c) <==> has_category(
                    services@,
                    c,
                ));
                if has_name(po, c) {
                    let w = choose|w: int| 0 <= w < po.len() && (#[trigger] po[w])@ == c;
                    if w < prev_ordered.len() {
                        assert(prev_ordered[w]@ == c);
                        assert(has_name(prev_ordered, c));
                    } else {
                        assert(prev_rest[min as int]@ == c);
                        assert(has_name(prev_rest, c));
                    }
                }
                if has_name(pr, c) {
                    let w = choose|w: int| 0 <= w < pr.len() && (#[trigger] pr[w])@ == c;
                    let rw = if w < min { w } else { w + 1 };
                    assert(pr[w] == prev_rest[rw]);
                    assert(has_name(prev_rest, c));
                }
                if has_category(services@, c) {
                    if has_name(prev_ordered, c) {
                        let w = choose|w: int|
                            0 <= w < prev_ordered.len() && (#[trigger] prev_ordered[w])@ == c;
                        assert(po[w]@ == c);
                        assert(has_name(po, c));
                    } else {
                        assert(has_name(prev_rest, c));
                        let w = choose|w: int|
                            0 <= w < prev_rest.len() && (#[trigger] prev_rest[w])@ == c;
                        if w == min {
                            assert(po[po.len() - 1]@ == c);
                            assert(has_name(po, c));
                        } else {
                            let nw = if w < min { w } else { w - 1 };
                            assert(pr[nw] == prev_rest[w]);
                            assert(has_name(pr, c));
                        }
                    }
                }
            }
        }
    }
    // build one entry per name
    let mut out: Vec<CategoryResponse> = Vec::new();
    let total = ordered.len();
    for t in 0..total
        invariant
            total == ordered@.len(),
            out@.len() == t,
            forall|a: int| 0 <= a < t ==> (#[trigger] out@[a]).name@ == ordered@[a]@,
            forall|a: int, b: int|
                0 <= a < b < ordered@.len() ==> lex_le((#[trigger] ordered@[a])@, (
                #[trigger] ordered@[b])@) && ordered@[a]@ != ordered@[b]@,
            forall|c: Seq<u8>| #[trigger] has_name(ordered@, c) <==> has_category(services@, c),
            forall|a: int| 0 <= a < t ==> entry_matches(#[trigger] out@[a], services@),
    {
        let name = &ordered[t];
        proof {
            assert((#[trigger] ordered@[t as int])@ == name@);
            assert(has_name(ordered@, name@));
            lemma_filter_category_first(services@, name@);
        }
        let (subs, icon) = collect_category(services, name.as_slice());
        let mut id_copy: Vec<u8> = Vec::new();
        append_bytes(&mut id_copy, name.as_slice());
        proof {
            assert(id_copy@ =~= name@);
        }
        let mut name_copy: Vec<u8> = Vec::new();
        append_bytes(&mut name_copy, name.as_slice());
        proof {
            assert(name_copy@ =~= name@);
        }
        out.push(CategoryResponse {
            id: id_copy,
            name: name_copy,
            description: None,
            icon,
            subcategories: subs,
        });
    }
    proof {
        assert forall|i: int| 0 <= i < out@.len() implies has_category(
            services@,
            (#[trigger] out@[i]).name@,
        ) by {
            assert((ordered@[i])@ == out@[i].name@);
            assert(has_name(ordered@, out@[i].name@));
        }
        assert forall|i: int| 0 <= i < services@.len() implies exists|k: int|
            0 <= k < out@.len() && out@[k].name@ == (#[trigger] services@[i]).service_category@ by {
            assert(has_category(services@, services@[i].service_category@));
            assert(has_name(ordered@, services@[i].service_category@));
            let a = choose|a: int|
                0 <= a < ordered@.len() && (#[trigger] ordered@[a])@
                    == services@[i].service_category@;
            assert(out@[a].name@ == services@[i].service_category@);
        }
    }
    out
}

/// A stored main category.
pub struct MainCategory {
    pub id: Option<Vec<u8>>,
    pub name: String,
    pub description: Option<String>,
    pub icon: Option<String>,
    pub is_active: bool,
    pub order: i32,
    pub created_at: i64,
    pub updated_at: i64,
}

/// A stored subcategory under a main category.
pub struct SubCategory {
    pub id: Option<Vec<u8>>,
    pub main_category_id: Vec<u8>,
    pub name: String,
    pub description: Option<String>,
    pub is_active: bool,
    pub order: i32,
    pub created_at: i64,
    pub updated_at: i64,
}

/// Fields for creating or replacing a category.
pub struct CreateCategoryDto {
    pub name: String,
    pub description: Option<String>,
    pub icon: Option<String>,
    pub order: Option<i32>,
    pub is_active: Option<bool>,
}

/// Fields for creating or replacing a subcategory; the parent may be named
/// by id or by category name.
pub struct CreateSubcategoryDto {
    pub main_category_id: Vec<u8>,
    pub name: String,
    pub description: Option<String>,
    pub order: Option<i32>,
    pub is_active: Option<bool>,
}

/// A fresh category record from the admin's fields: active by default, at
/// order 0, with no id until the store assigns one.
pub fn new_category(dto: CreateCategoryDto, now: i64) -> (c: MainCategory)
    ensures
        c.id is None,
        c.name == dto.name,
        c.description == dto.description,
        c.icon == dto.icon,
        c.is_active == (if dto.is_active is Some { dto.is_active.unwrap() } else { true }),
        c.order == (if dto.order is Some { dto.order.unwrap() } else { 0i32 }),
        c.created_at == now,
        c.updated_at == now,
{
    MainCategory {
        id: None,
        name: dto.name,
        description: dto.description,
        icon: dto.icon,
        is_active: match dto.is_active {
            Some(a) => a,
            None => true,
        },
        order: match dto.order {
            Some(o) => o,
            None => 0,
        },
        created_at: now,
        updated_at: now,
    }
}

/// Applies an admin's edit to a category: the name always, the optional
/// fields only when given, with the edit time stamped.
pub fn apply_category_update(category: &mut MainCategory, dto: CreateCategoryDto, now: i64)
    ensures
        final(category).name == dto.name,
        final(category).description == (if dto.description is Some {
            dto.description
        } else {
            old(category).description
        }),
        final(category).icon == (if dto.icon is Some { dto.icon } else { old(category).icon }),
        final(category).order == (if dto.order is Some {
            dto.order.unwrap()
        } else {
            old(category).order
        }),
        final(category).is_active == (if dto.is_active is Some {
            dto.is_active.unwrap()
        } else {
            old(category).is_active
        }),
        final(category).updated_at == now,
        final(category).id == old(category).id,
        final(category).created_at == old(category).created_at,
{
    category.name = dto.name;
    if let Some(d) = dto.description {
        category.description = Some(d);
    }
    if let Some(ic) = dto.icon {
        category.icon = Some(ic);
    }
    if let Some(o) = dto.order {
        category.order = o;
    }
    if let Some(a) = dto.is_active {
        category.is_active = a;
    }
    category.updated_at = now;
}

/// Applies an admin's edit to a subcategory: the name always, the optional
/// fields only when given; the parent reference stays as it is.
pub fn apply_subcategory_update(sub: &mut SubCategory, dto: CreateSubcategoryDto, now: i64)
    ensures
        final(sub).name == dto.name,
        final(sub).description == (if dto.description is Some {
            dto.description
        } else {
            old(sub).description
        }),
        final(sub).order == (if dto.order is Some { dto.order.unwrap() } else { old(sub).order }),
        final(sub).is_active == (if dto.is_active is Some {
            dto.is_active.unwrap()
        } else {
            old(sub).is_active
        }),
        final(sub).updated_at == now,
        final(sub).id == old(sub).id,
        final(sub).main_category_id == old(sub).main_category_id,
        final(sub).created_at == old(sub).created_at,
{
    sub.name = dto.name;
    if let Some(d) = dto.description {
        sub.description = Some(d);
    }
    if let Some(o) = dto.order {
        sub.order = o;
    }
    if let Some(a) = dto.is_active {
        sub.is_active = a;
    }
    sub.updated_at = now;
}

/// How the parent of a new subcategory is obtained.
pub enum ParentResolution {
    /// The reference was a well-formed id; use it as given.
    ById(Vec<u8>),
    /// The reference named an existing category; use that category's id.
    Existing(Vec<u8>),
    /// The reference named no category: create one under that name first.
    CreateNew,
}

/// Resolves a subcategory's parent reference: a 24-character reference
/// must be a hex id (`400` otherwise); any other text is a category name,
/// answered with the already-looked-up category (whose stored id it needs,
/// `400` if it has none) or with the instruction to create one.
pub fn resolve_subcategory_parent(reference: &[u8], existing: Option<&MainCategory>) -> (r: Result<
    ParentResolution,
    ApiError,
>)
    ensures
        reference@.len() == 24 ==> ({
            &&& (r is Ok <==> (forall|i: int|
                0 <= i < reference@.len() ==> crate::text::is_hex_digit(#[trigger] reference@[i])))
            &&& (r matches Ok(p) ==> p matches ParentResolution::ById(id) && id@
                == crate::ids::oid_canon(reference@))
        }),
        reference@.len() != 24 ==> ({
            &&& (existing matches Some(c) ==> ({
                &&& (r is Ok <==> c.id is Some)
                &&& (r matches Ok(p) ==> p matches ParentResolution::Existing(id) && (
                c.id matches Some(cid) && id@ == cid@))
            }))
            &&& (existing is None ==> (r matches Ok(p) && p is CreateNew))
        }),
        r matches Err(e) ==> e.status == crate::errors::STATUS_BAD_REQUEST,
{
    if reference.len() == 24 {
        match crate::ids::parse_oid(reference) {
            Some(id) => Ok(ParentResolution::ById(id)),
            None => Err(ApiError {
                status: crate::errors::STATUS_BAD_REQUEST,
                message: "Invalid main category ID".to_owned(),
            }),
        }
    } else {
        match existing {
            Some(c) => {
                match &c.id {
                    Some(id) => {
                        let mut id_copy: Vec<u8> = Vec::new();
                        append_bytes(&mut id_copy, id.as_slice());
                        proof {
                            assert(id_copy@ =~= id@);
                        }
                        Ok(ParentResolution::Existing(id_copy))
                    },
                    None => Err(ApiError {
                        status: crate::errors::STATUS_BAD_REQUEST,
                        message: "Category missing ID".to_owned(),
                    }),
                }
            },
            None => Ok(ParentResolution::CreateNew),
        }
    }
}

/// A fresh subcategory record under the resolved parent.
pub fn new_subcategory(dto: CreateSubcategoryDto, parent_id: Vec<u8>, now: i64) -> (s: SubCategory)
    ensures
        s.id is None,
        s.main_category_id == parent_id,
        s.name == dto.name,
        s.description == dto.description,
        s.is_active == (if dto.is_active is Some { dto.is_active.unwrap() } else { true }),
        s.order == (if dto.order is Some { dto.order.unwrap() } else { 0i32 }),
        s.created_at == now,
        s.updated_at == now,
{
    SubCategory {
        id: None,
        main_category_id: parent_id,
        name: dto.name,
        description: dto.description,
        is_active: match dto.is_active {
            Some(a) => a,
            None => true,
        },
        order: match dto.order {
            Some(o) => o,
            None => 0,
        },
        created_at: now,
        updated_at: now,
    }
}

/// Whether some name in the list reads `c`.
pub open spec fn has_name(names: Seq<Vec<u8>>, c: Seq<u8>) -> bool {
    exists|i: int| 0 <= i < names.len() && (#[trigger] names[i])@ == c
}

/// The services of one category, shaped for the client; `404` when the
/// category has none.
pub fn get_subcategories(services: &Vec<Service>, category_name: &[u8]) -> (r: Result<
    Vec<SubCategoryResponse>,
    ApiError,
>)
    ensures
        r is Ok <==> has_category(services@, category_name@),
        r matches Err(e) ==> e.status == STATUS_NOT_FOUND,
        r matches Ok(subs) ==> ({
            let f = filter_category(services@, category_name@);
            &&& subs@.len() == f.len()
            &&& (forall|k: int|
                0 <= k < f.len() ==> {
                    &&& (#[trigger] subs@[k]).id@ == f[k].id@
                    &&& subs@[k].name@ == f[k].name@
                    &&& (subs@[k].description matches Some(d) && d@ == f[k].description@)
                })
        }),
{
    let (subs, _) = collect_category(services, category_name);
    if subs.len() == 0 {
        proof {
            if has_category(services@, category_name@) {
                lemma_filter_category_first(services@, category_name@);
            }
        }
        return Err(ApiError {
            status: STATUS_NOT_FOUND,
            message: "Category not found".to_owned(),
        });
    }
    proof {
        lemma_filter_nonempty_has(services@, category_name@);
    }
    Ok(subs)
}

} // verus!

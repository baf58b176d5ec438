//! The view-model assembler: reshapes a raw character record into the flat
//! shape the character-sheet template expects. Aspects are sorted stably by
//! category (high concept, then trouble, then the rest) and flattened to
//! their descriptions; skills are flattened to a name and a narrow rating,
//! rejecting any level outside the rating's range.

use vstd::prelude::*;
use vstd::seq_lib::group_filter_ensures;
use crate::dto;
use crate::dto::{Aspect, AspectType, SkillInner, SkillOuter};
use crate::error::AppError;
use crate::view;
use crate::view::{CharacterSheet, Skill};

verus! {

/// Holds of the aspects whose category is `t`.
pub open spec fn cat_pred(t: AspectType) -> spec_fn(Aspect) -> bool {
    |a: Aspect| a.aspect_type == t
}

/// The aspects reordered by category — high concept first, trouble second,
/// the rest last — keeping the original order inside each category.
pub open spec fn sorted_aspects(s: Seq<Aspect>) -> Seq<Aspect> {
    s.filter(cat_pred(AspectType::High)) + s.filter(cat_pred(AspectType::Trouble))
        + s.filter(cat_pred(AspectType::Other))
}

/// The descriptions of the aspects, in order.
pub open spec fn descriptions(s: Seq<Aspect>) -> Seq<String> {
    s.map_values(|a: Aspect| a.description)
}

/// The display shape of one raw skill.
pub open spec fn skill_view(s: SkillOuter) -> Skill {
    Skill { name: s.name.name, rating: s.level as u8 }
}

/// The display shapes of the raw skills, in order.
pub open spec fn skills_view(s: Seq<SkillOuter>) -> Seq<Skill> {
    s.map_values(|o: SkillOuter| skill_view(o))
}

/// The names inside the nested name records, in order.
pub open spec fn names_of(s: Seq<SkillInner>) -> Seq<String> {
    s.map_values(|i: SkillInner| i.name)
}

/// Every raw skill level fits the narrow rating range.
pub open spec fn levels_in_range(s: Seq<SkillOuter>) -> bool {
    forall|i: int| 0 <= i < s.len() ==> 0 <= #[trigger] s[i].level <= 255
}

proof fn lemma_filter_push(s: Seq<Aspect>, pred: spec_fn(Aspect) -> bool, x: Aspect)
    ensures
        s.push(x).filter(pred) == (if pred(x) {
            s.filter(pred).push(x)
        } else {
            s.filter(pred)
        }),
{
    reveal(Seq::filter);
    assert(s.push(x).drop_last() =~= s);
    assert(s.push(x).last() == x);
}

/// Reorders the aspects by category: high concept first, trouble second,
/// all other aspects last, keeping the original order inside each category.
pub fn sort_aspects(aspects: Vec<Aspect>) -> (r: Vec<Aspect>)
    ensures
        r@ == sorted_aspects(aspects@),
{
    let ghost orig: Seq<Aspect> = aspects@;
    let mut rest = aspects;
    let mut high: Vec<Aspect> = Vec::new();
    let mut trouble: Vec<Aspect> = Vec::new();
    let mut other: Vec<Aspect> = Vec::new();
    while rest.len() > 0
        invariant
            rest@.len() <= orig.len(),
            rest@ == orig.skip(orig.len() - rest@.len()),
            high@ == orig.take(orig.len() - rest@.len()).filter(cat_pred(AspectType::High)),
            trouble@ == orig.take(orig.len() - rest@.len()).filter(cat_pred(AspectType::Trouble)),
            other@ == orig.take(orig.len() - rest@.len()).filter(cat_pred(AspectType::Other)),
        decreases rest@.len(),
    {
        let ghost k: int = orig.len() - rest@.len();
        let a = rest.remove(0);
        proof {
            assert(a == orig[k]);
            assert(rest@ =~= orig.skip(k + 1));
            assert(orig.take(k + 1) =~= orig.take(k).push(orig[k]));
            lemma_filter_push(orig.take(k), cat_pred(AspectType::High), orig[k]);
            lemma_filter_push(orig.take(k), cat_pred(AspectType::Trouble), orig[k]);
            lemma_filter_push(orig.take(k), cat_pred(AspectType::Other), orig[k]);
        }
        match a.aspect_type {
            AspectType::High => high.push(a),
            AspectType::Trouble => trouble.push(a),
            AspectType::Other => other.push(a),
        }
    }
    proof {
        assert(orig.take(orig.len() as int) =~= orig);
    }
    let mut r = high;
    r.append(&mut trouble);
    r.append(&mut other);
    r
}

/// Flattens sorted aspects to their descriptions, in order.
fn aspect_descriptions(aspects: Vec<Aspect>) -> (r: Vec<String>)
    ensures
        r@ == descriptions(aspects@),
{
    let ghost orig: Seq<Aspect> = aspects@;
    let mut rest = aspects;
    let mut out: Vec<String> = Vec::new();
    while rest.len() > 0
        invariant
            rest@.len() <= orig.len(),
            rest@ == orig.skip(orig.len() - rest@.len()),
            out@ == descriptions(orig.take(orig.len() - rest@.len())),
        decreases rest@.len(),
    {
        let ghost k: int = orig.len() - rest@.len();
        let a = rest.remove(0);
        proof {
            assert(a == orig[k]);
            assert(rest@ =~= orig.skip(k + 1));
            assert(descriptions(orig.take(k + 1)) =~= descriptions(orig.take(k)).push(
                orig[k].description,
            ));
        }
        out.push(a.description);
    }
    proof {
        assert(orig.take(orig.len() as int) =~= orig);
    }
    out
}

/// Flattens one raw skill to its display shape. A level outside the rating
/// range 0 to 255 is rejected as invalid input rather than silently
/// narrowed.
pub fn assemble_skill(s: SkillOuter) -> (r: Result<Skill, AppError>)
    ensures
        r is Ok <==> 0 <= s.level <= 255,
        r is Ok ==> r->Ok_0 == skill_view(s) && r->Ok_0.rating as i32 == s.level,
        r is Err ==> r->Err_0 == AppError::Validation,
{
    if 0 <= s.level && s.level <= 255 {
        Ok(Skill { name: s.name.name, rating: s.level as u8 })
    } else {
        Err(AppError::Validation)
    }
}

/// Flattens every raw skill, rejecting the whole list as invalid as soon as
/// one level falls outside the rating range.
fn assemble_skills(skills: Vec<SkillOuter>) -> (r: Result<Vec<Skill>, AppError>)
    ensures
        r is Ok <==> levels_in_range(skills@),
        r is Ok ==> r->Ok_0@ == skills_view(skills@),
        r is Err ==> r->Err_0 == AppError::Validation,
{
    let ghost orig: Seq<SkillOuter> = skills@;
    let mut rest = skills;
    let mut out: Vec<Skill> = Vec::new();
    while rest.len() > 0
        invariant
            orig == skills@,
            rest@.len() <= orig.len(),
            rest@ == orig.skip(orig.len() - rest@.len()),
            out@ == skills_view(orig.take(orig.len() - rest@.len())),
            levels_in_range(orig.take(orig.len() - rest@.len())),
        decreases rest@.len(),
    {
        let ghost k: int = orig.len() - rest@.len();
        let s = rest.remove(0);
        proof {
            assert(s == orig[k]);
            assert(rest@ =~= orig.skip(k + 1));
            assert(skills_view(orig.take(k + 1)) =~= skills_view(orig.take(k)).push(
                skill_view(orig[k]),
            ));
            assert(orig.take(k + 1) =~= orig.take(k).push(orig[k]));
        }
        match assemble_skill(s) {
            Ok(sk) => out.push(sk),
            Err(e) => {
                proof {
                    assert(!(0 <= orig[k].level <= 255));
                    assert(!levels_in_range(orig)) by {
                        if levels_in_range(orig) {
                            assert(0 <= orig[k].level <= 255);
                        }
                    }
                }
                return Err(e);
            },
        }
    }
    proof {
        assert(orig.take(orig.len() as int) =~= orig);
    }
    Ok(out)
}

/// Passes the permitted-skill names through, flattening the nested records.
fn skill_names(all: Vec<SkillInner>) -> (r: Vec<String>)
    ensures
        r@ == names_of(all@),
{
    let ghost orig: Seq<SkillInner> = all@;
    let mut rest = all;
    let mut out: Vec<String> = Vec::new();
    while rest.len() > 0
        invariant
            rest@.len() <= orig.len(),
            rest@ == orig.skip(orig.len() - rest@.len()),
            out@ == names_of(orig.take(orig.len() - rest@.len())),
        decreases rest@.len(),
    {
        let ghost k: int = orig.len() - rest@.len();
        let s = rest.remove(0);
        proof {
            assert(s == orig[k]);
            assert(rest@ =~= orig.skip(k + 1));
            assert(names_of(orig.take(k + 1)) =~= names_of(orig.take(k)).push(orig[k].name));
        }
        out.push(s.name);
    }
    proof {
        assert(orig.take(orig.len() as int) =~= orig);
    }
    out
}

/// What a well-formed character sheet says of the record it was assembled
/// from: the name and stunts pass through unchanged, the aspects are the
/// sorted descriptions, the skills are the flattened skills, the permitted
/// names pass through, and the editable flag is the caller's.
pub open spec fn sheet_matches(
    c: dto::Character,
    alls: Seq<SkillInner>,
    editable: bool,
    sheet: CharacterSheet,
) -> bool {
    &&& sheet.character.name == c.name
    &&& sheet.character.stunts@ == c.stunts@
    &&& sheet.character.aspects@ == descriptions(sorted_aspects(c.aspects@))
    &&& sheet.character.skills@ == skills_view(c.skills@)
    &&& sheet.all_skills@ == names_of(alls)
    &&& sheet.editable == editable
}

/// Assembles the character sheet from a raw record, the permitted-skill
/// names and the editable flag. Succeeds exactly when every skill level
/// fits the rating range; any level outside it rejects the record.
pub fn assemble_character(
    c: dto::Character,
    all_skills: Vec<SkillInner>,
    editable: bool,
) -> (r: Result<CharacterSheet, AppError>)
    ensures
        r is Ok <==> levels_in_range(c.skills@),
        r is Ok ==> sheet_matches(c, all_skills@, editable, r->Ok_0),
        r is Err ==> r->Err_0 == AppError::Validation,
{
    let dto::Character { name, stunts, skills, aspects } = c;
    let sorted = sort_aspects(aspects);
    let aspect_strs = aspect_descriptions(sorted);
    let skill_views = match assemble_skills(skills) {
        Ok(v) => v,
        Err(e) => {
            return Err(e);
        },
    };
    let all_names = skill_names(all_skills);
    Ok(
        CharacterSheet {
            character: view::Character {
                name,
                aspects: aspect_strs,
                skills: skill_views,
                stunts,
            },
            all_skills: all_names,
            editable,
        },
    )
}

proof fn lemma_filter_all_hold(s: Seq<Aspect>, pred: spec_fn(Aspect) -> bool)
    requires
        forall|i: int| 0 <= i < s.len() ==> pred(#[trigger] s[i]),
    ensures
        s.filter(pred) == s,
    decreases s.len(),
{
    reveal(Seq::filter);
    if s.len() == 0 {
        assert(s.filter(pred) =~= s);
    } else {
        lemma_filter_all_hold(s.drop_last(), pred);
        assert(pred(s.last()));
        assert(s.drop_last().push(s.last()) =~= s);
    }
}

proof fn lemma_filter_none_hold(s: Seq<Aspect>, pred: spec_fn(Aspect) -> bool)
    requires
        forall|i: int| 0 <= i < s.len() ==> !pred(#[trigger] s[i]),
    ensures
        s.filter(pred) == Seq::<Aspect>::empty(),
    decreases s.len(),
{
    reveal(Seq::filter);
    if s.len() == 0 {
        assert(s.filter(pred) =~= Seq::<Aspect>::empty());
    } else {
        lemma_filter_none_hold(s.drop_last(), pred);
        assert(!pred(s.last()));
    }
}

proof fn lemma_refilter(s: Seq<Aspect>, a: AspectType, b: AspectType)
    ensures
        a == b ==> s.filter(cat_pred(a)).filter(cat_pred(b)) == s.filter(cat_pred(a)),
        a != b ==> s.filter(cat_pred(a)).filter(cat_pred(b)) == Seq::<Aspect>::empty(),
{
    broadcast use group_filter_ensures;

    let f = s.filter(cat_pred(a));
    assert(forall|i: int| 0 <= i < f.len() ==> cat_pred(a)(#[trigger] f[i]));
    if a == b {
        lemma_filter_all_hold(f, cat_pred(b));
    } else {
        assert(forall|i: int| 0 <= i < f.len() ==> !cat_pred(b)(#[trigger] f[i]));
        lemma_filter_none_hold(f, cat_pred(b));
    }
}

/// The place of a category in the fixed display order.
pub open spec fn cat_rank(t: AspectType) -> int {
    match t {
        AspectType::High => 0,
        AspectType::Trouble => 1,
        AspectType::Other => 2,
    }
}

/// Law: the category sort permutes the input — it keeps every aspect,
/// duplicates included, and invents none.
pub proof fn lemma_sort_permutes(s: Seq<Aspect>)
    ensures
        sorted_aspects(s).to_multiset() == s.to_multiset(),
    decreases s.len(),
{
    broadcast use vstd::seq_lib::lemma_multiset_commutative;
    broadcast use vstd::seq_lib::group_to_multiset_ensures;
    broadcast use vstd::multiset::group_multiset_axioms;

    reveal(Seq::filter);
    if s.len() == 0 {
        assert(sorted_aspects(s) =~= s);
    } else {
        let d = s.drop_last();
        let l = s.last();
        lemma_sort_permutes(d);
        assert(s =~= d.push(l));
        assert(s.to_multiset() =~= d.to_multiset().insert(l));
        let hs = s.filter(cat_pred(AspectType::High));
        let ts = s.filter(cat_pred(AspectType::Trouble));
        let os = s.filter(cat_pred(AspectType::Other));
        let hd = d.filter(cat_pred(AspectType::High));
        let td = d.filter(cat_pred(AspectType::Trouble));
        let od = d.filter(cat_pred(AspectType::Other));
        match l.aspect_type {
            AspectType::High => {
                assert(hs == hd.push(l) && ts == td && os == od);
                assert(hs.to_multiset() =~= hd.to_multiset().insert(l));
            },
            AspectType::Trouble => {
                assert(hs == hd && ts == td.push(l) && os == od);
                assert(ts.to_multiset() =~= td.to_multiset().insert(l));
            },
            AspectType::Other => {
                assert(hs == hd && ts == td && os == od.push(l));
                assert(os.to_multiset() =~= od.to_multiset().insert(l));
            },
        }
        assert(sorted_aspects(s).to_multiset() =~= hs.to_multiset().add(ts.to_multiset()).add(
            os.to_multiset(),
        ));
        assert(sorted_aspects(d).to_multiset() =~= hd.to_multiset().add(td.to_multiset()).add(
            od.to_multiset(),
        ));
        assert(sorted_aspects(s).to_multiset() =~= sorted_aspects(d).to_multiset().insert(l));
    }
}

/// Law: the category sort groups the aspects in the fixed display order —
/// no aspect stands before one of an earlier category.
pub proof fn lemma_sort_ordered(s: Seq<Aspect>)
    ensures
        forall|i: int, j: int|
            0 <= i <= j < sorted_aspects(s).len() ==> cat_rank(
                #[trigger] sorted_aspects(s)[i].aspect_type,
            ) <= cat_rank(#[trigger] sorted_aspects(s)[j].aspect_type),
{
    broadcast use group_filter_ensures;

    let h = s.filter(cat_pred(AspectType::High));
    let tr = s.filter(cat_pred(AspectType::Trouble));
    let o = s.filter(cat_pred(AspectType::Other));
    let sorted = sorted_aspects(s);
    assert forall|i: int| 0 <= i < sorted.len() implies cat_rank(
        #[trigger] sorted[i].aspect_type,
    ) == (if i < h.len() {
        0int
    } else if i < h.len() + tr.len() {
        1int
    } else {
        2int
    }) by {
        if i < h.len() {
            assert(sorted[i] == h[i]);
            assert(cat_pred(AspectType::High)(h[i]));
        } else if i < h.len() + tr.len() {
            assert(sorted[i] == tr[i - h.len()]);
            assert(cat_pred(AspectType::Trouble)(tr[i - h.len()]));
        } else {
            assert(sorted[i] == o[i - h.len() - tr.len()]);
            assert(cat_pred(AspectType::Other)(o[i - h.len() - tr.len()]));
        }
    }
}

/// Law: the category sort is stable — inside any one category the sorted
/// list keeps exactly the entries of the input, in the input's order.
pub proof fn lemma_sort_stable(s: Seq<Aspect>, t: AspectType)
    ensures
        sorted_aspects(s).filter(cat_pred(t)) == s.filter(cat_pred(t)),
{
    let h = s.filter(cat_pred(AspectType::High));
    let tr = s.filter(cat_pred(AspectType::Trouble));
    let o = s.filter(cat_pred(AspectType::Other));
    Seq::filter_distributes_over_add(h + tr, o, cat_pred(t));
    Seq::filter_distributes_over_add(h, tr, cat_pred(t));
    lemma_refilter(s, AspectType::High, t);
    lemma_refilter(s, AspectType::Trouble, t);
    lemma_refilter(s, AspectType::Other, t);
    match t {
        AspectType::High => {
            assert(h + Seq::<Aspect>::empty() + Seq::<Aspect>::empty() =~= h);
        },
        AspectType::Trouble => {
            assert(Seq::<Aspect>::empty() + tr + Seq::<Aspect>::empty() =~= tr);
        },
        AspectType::Other => {
            assert(Seq::<Aspect>::empty() + Seq::<Aspect>::empty() + o =~= o);
        },
    }
}

/// Law: the category sort is idempotent — sorting an already-sorted list
/// yields the same order.
pub proof fn lemma_sort_idempotent(s: Seq<Aspect>)
    ensures
        sorted_aspects(sorted_aspects(s)) == sorted_aspects(s),
{
    lemma_sort_stable(s, AspectType::High);
    lemma_sort_stable(s, AspectType::Trouble);
    lemma_sort_stable(s, AspectType::Other);
}

} // verus!

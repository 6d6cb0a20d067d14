//! Structural extraction: rendered HTML is parsed into a DOM once and an
//! ordered list of selector groups is tried, most build-specific first. The
//! first group that yields at least one non-empty record wins; later groups
//! are never consulted. Per root element the title, the unit names and the
//! win-rate text are read through fixed sub-selector lists, trimmed and
//! cleaned; an element contributing no field at all is dropped.

use vstd::prelude::*;
use crate::json::BuildRecord;
use crate::json::RecordV;
use crate::json::record_nonempty;
use crate::text::trim_seq;
use crate::winrate::strip_percent;
use crate::winrate::valid_decimal;
use crate::winrate::shift2;

verus! {

/// How many elements of `html` the selector list `group` matches. The DOM
/// is built by an outside HTML parser, so the value is named, not stated;
/// it depends on the two texts alone.
pub uninterp spec fn dom_root_count(html: Seq<char>, group: Seq<char>) -> nat;

/// Per root element of `group` in `html`, in document order, the
/// concatenated texts of its `sub` matches, in order. As `dom_root_count`,
/// a function of its arguments alone.
pub uninterp spec fn dom_texts(html: Seq<char>, group: Seq<char>, sub: Seq<char>) -> Seq<
    Seq<Seq<char>>,
>;

/// Relies on scraper's `Html::parse_document`, `Selector::parse`,
/// `Html::select`, `ElementRef::select` and `ElementRef::text`: parsing a
/// document and selecting elements in document order are deterministic in
/// the document and selector texts alone. Per root element matching
/// `group`, the text of each of its `sub` matches. A `group` that does not
/// parse matches no roots; a `sub` that does not parse yields no texts for
/// any root, so the outer length depends on the document and `group` alone.
#[verifier::external_body]
fn select_sub_texts(html: &str, group: &str, sub: &str) -> (r: Vec<Vec<String>>)
    ensures
        r@.len() == dom_root_count(html@, group@),
        r@.map_values(|e: Vec<String>| e@.map_values(|s: String| s@)) == dom_texts(
            html@,
            group@,
            sub@,
        ),
{
    let doc = scraper::Html::parse_document(html);
    match (scraper::Selector::parse(group), scraper::Selector::parse(sub)) {
        (Ok(g), Ok(s)) => doc.select(&g).map(
            |el| el.select(&s).map(|e| e.text().collect()).collect(),
        ).collect(),
        (Ok(g), Err(_)) => doc.select(&g).map(|_| Vec::new()).collect(),
        _ => Vec::new(),
    }
}

/// The selector groups, in priority order.
pub open spec fn groups_spec() -> Seq<Seq<char>> {
    seq![
        ".build-card, .comp-card, .tierlist-item"@,
        "[data-testid='build'], [data-testid='comp']"@,
        ".build, .comp, .team-comp"@,
        ".card, .item"@,
    ]
}

/// The title sub-selectors.
pub open spec fn title_sel_spec() -> Seq<char> {
    ".title, .name, h3, h4, .build-name"@
}

/// The unit sub-selectors.
pub open spec fn unit_sel_spec() -> Seq<char> {
    ".illuvial, .champion, .unit, .comp-unit"@
}

/// The win-rate sub-selectors.
pub open spec fn rate_sel_spec() -> Seq<char> {
    ".win-rate, .winrate, .rate"@
}

proof fn lemma_filter_push<A>(s: Seq<A>, x: A, p: spec_fn(A) -> bool)
    ensures
        s.push(x).filter(p) == if p(x) {
            s.filter(p).push(x)
        } else {
            s.filter(p)
        },
{
    reveal_with_fuel(Seq::filter, 2);
    assert(s.push(x).drop_last() =~= s);
    assert(s.push(x).last() == x);
}

/// Unit texts trimmed, empty ones dropped.
pub open spec fn clean_units(units: Seq<Seq<char>>) -> Seq<Seq<char>> {
    units.map_values(|u: Seq<char>| trim_seq(u)).filter(|u: Seq<char>| u.len() > 0)
}

/// The record one element's texts yield: the first title text trimmed, the
/// unit texts trimmed with empties dropped, the first rate text parsed as a
/// percentage (omitted when missing or unparsable, never defaulted).
pub open spec fn record_from(
    title_texts: Seq<Seq<char>>,
    unit_texts: Seq<Seq<char>>,
    rate_texts: Seq<Seq<char>>,
) -> RecordV {
    RecordV {
        name: if title_texts.len() > 0 {
            Some(trim_seq(title_texts[0]))
        } else {
            None
        },
        composition: clean_units(unit_texts),
        win_rate: if rate_texts.len() > 0 && valid_decimal(strip_percent(rate_texts[0])) {
            Some(shift2(strip_percent(rate_texts[0])))
        } else {
            None
        },
    }
}

/// The record of the `k`-th root element of `group` in `html`.
pub open spec fn root_record(html: Seq<char>, group: Seq<char>, k: int) -> RecordV {
    record_from(
        dom_texts(html, group, title_sel_spec())[k],
        dom_texts(html, group, unit_sel_spec())[k],
        dom_texts(html, group, rate_sel_spec())[k],
    )
}

/// The non-empty records one selector group yields on `html`.
pub open spec fn group_records(html: Seq<char>, group: Seq<char>) -> Seq<RecordV> {
    Seq::new(dom_root_count(html, group), |k: int| root_record(html, group, k)).filter(
        |r: RecordV| record_nonempty(r),
    )
}

/// The records of the first group from `i` on that yields any; empty when
/// none does.
pub open spec fn extract_from(html: Seq<char>, i: int) -> Seq<RecordV>
    decreases groups_spec().len() - i,
{
    if i < 0 || i >= groups_spec().len() {
        Seq::empty()
    } else if group_records(html, groups_spec()[i]).len() > 0 {
        group_records(html, groups_spec()[i])
    } else {
        extract_from(html, i + 1)
    }
}

/// The records the structural extractor returns for `html`: those of the
/// first selector group with at least one hit.
pub open spec fn extract_spec(html: Seq<char>) -> Seq<RecordV> {
    extract_from(html, 0)
}

/// Records of later groups never mix in: when every group before `k` is
/// empty on `html` and group `k` yields records, the extractor returns
/// exactly group `k`'s records.
pub proof fn lemma_first_group_wins(html: Seq<char>, k: int)
    requires
        0 <= k < groups_spec().len(),
        forall|j: int| 0 <= j < k ==> group_records(html, groups_spec()[j]).len() == 0,
        group_records(html, groups_spec()[k]).len() > 0,
    ensures
        extract_spec(html) == group_records(html, groups_spec()[k]),
{
    lemma_first_group_wins_from(html, 0, k);
}

proof fn lemma_first_group_wins_from(html: Seq<char>, i: int, k: int)
    requires
        0 <= i <= k < groups_spec().len(),
        forall|j: int| i <= j < k ==> group_records(html, groups_spec()[j]).len() == 0,
        group_records(html, groups_spec()[k]).len() > 0,
    ensures
        extract_from(html, i) == group_records(html, groups_spec()[k]),
    decreases k - i,
{
    if i < k {
        lemma_first_group_wins_from(html, i + 1, k);
    }
}

/// Cleans one element's texts into a record, exactly `record_from`.
fn build_record(titles: &Vec<String>, units: &Vec<String>, rates: &Vec<String>) -> (r: BuildRecord)
    ensures
        r@ == record_from(
            titles@.map_values(|s: String| s@),
            units@.map_values(|s: String| s@),
            rates@.map_values(|s: String| s@),
        ),
{
    let name: Option<String> = if titles.len() > 0 {
        let tc = crate::text::str_chars(titles[0].as_str());
        let trimmed = crate::text::trim_chars(&tc);
        Some(crate::text::chars_to_string(&trimmed))
    } else {
        None
    };
    let mut composition: Vec<String> = Vec::new();
    let mut i: usize = 0;
    while i < units.len()
        invariant
            i <= units@.len(),
            composition@.map_values(|s: String| s@) =~= units@.subrange(0, i as int).map_values(
                |s: String| s@,
            ).map_values(|u: Seq<char>| trim_seq(u)).filter(|u: Seq<char>| u.len() > 0),
        decreases units@.len() - i,
    {
        let uc = crate::text::str_chars(units[i].as_str());
        let trimmed = crate::text::trim_chars(&uc);
        let ghost before = composition@;
        if trimmed.len() > 0 {
            composition.push(crate::text::chars_to_string(&trimmed));
        }
        proof {
            let uv = units@.subrange(0, i as int).map_values(|s: String| s@).map_values(
                |u: Seq<char>| trim_seq(u),
            );
            let uv1 = units@.subrange(0, i + 1 as int).map_values(|s: String| s@).map_values(
                |u: Seq<char>| trim_seq(u),
            );
            assert(uv1 =~= uv.push(trim_seq(units@[i as int]@)));
            lemma_filter_push(uv, trim_seq(units@[i as int]@), |u: Seq<char>| u.len() > 0);
            if trim_seq(units@[i as int]@).len() > 0 {
                assert(composition@.map_values(|s: String| s@) =~= before.map_values(
                    |s: String| s@,
                ).push(trim_seq(units@[i as int]@)));
            }
        }
        i = i + 1;
    }
    proof {
        assert(units@.subrange(0, units@.len() as int) =~= units@);
    }
    let win_rate: Option<String> = if rates.len() > 0 {
        crate::winrate::parse_win_rate(rates[0].as_str())
    } else {
        None
    };
    BuildRecord { name, composition, win_rate }
}

/// The non-empty records one selector group yields, exactly
/// `group_records`.
fn extract_group(html: &str, group: &str) -> (r: Vec<BuildRecord>)
    ensures
        r@.map_values(|b: BuildRecord| b@) == group_records(html@, group@),
{
    let titles = select_sub_texts(html, group, ".title, .name, h3, h4, .build-name");
    let units = select_sub_texts(html, group, ".illuvial, .champion, .unit, .comp-unit");
    let rates = select_sub_texts(html, group, ".win-rate, .winrate, .rate");
    let ghost tv = dom_texts(html@, group@, title_sel_spec());
    let ghost uv = dom_texts(html@, group@, unit_sel_spec());
    let ghost rv = dom_texts(html@, group@, rate_sel_spec());
    let n: usize = titles.len();
    let mut out: Vec<BuildRecord> = Vec::new();
    let mut i: usize = 0;
    while i < n
        invariant
            i <= n,
            n == dom_root_count(html@, group@),
            n == titles@.len() == units@.len() == rates@.len(),
            titles@.map_values(|e: Vec<String>| e@.map_values(|s: String| s@)) == tv,
            units@.map_values(|e: Vec<String>| e@.map_values(|s: String| s@)) == uv,
            rates@.map_values(|e: Vec<String>| e@.map_values(|s: String| s@)) == rv,
            tv == dom_texts(html@, group@, title_sel_spec()),
            uv == dom_texts(html@, group@, unit_sel_spec()),
            rv == dom_texts(html@, group@, rate_sel_spec()),
            out@.map_values(|b: BuildRecord| b@) =~= Seq::new(
                i as nat,
                |k: int| root_record(html@, group@, k),
            ).filter(|r: RecordV| record_nonempty(r)),
        decreases n - i,
    {
        let rec = build_record(&titles[i], &units[i], &rates[i]);
        let ghost before = out@;
        proof {
            assert(tv[i as int] == titles@[i as int]@.map_values(|s: String| s@));
            assert(uv[i as int] == units@[i as int]@.map_values(|s: String| s@));
            assert(rv[i as int] == rates@[i as int]@.map_values(|s: String| s@));
            assert(rec@ == root_record(html@, group@, i as int));
        }
        let keep = rec.name.is_some() || rec.composition.len() > 0 || rec.win_rate.is_some();
        if keep {
            out.push(rec);
        }
        proof {
            let pre = Seq::new(i as nat, |k: int| root_record(html@, group@, k));
            let pre1 = Seq::new((i + 1) as nat, |k: int| root_record(html@, group@, k));
            assert(pre1 =~= pre.push(root_record(html@, group@, i as int)));
            lemma_filter_push(
                pre,
                root_record(html@, group@, i as int),
                |r: RecordV| record_nonempty(r),
            );
            assert(keep == record_nonempty(rec@));
            if keep {
                assert(out@.map_values(|b: BuildRecord| b@) =~= before.map_values(
                    |b: BuildRecord| b@,
                ).push(rec@));
            }
        }
        i = i + 1;
    }
    proof {
        assert(Seq::new(n as nat, |k: int| root_record(html@, group@, k)) =~= Seq::new(
            dom_root_count(html@, group@),
            |k: int| root_record(html@, group@, k),
        ));
    }
    out
}

/// Parses rendered HTML into build records: the selector groups are tried
/// in priority order and the first group yielding at least one non-empty
/// record supplies the result; an empty result is a valid outcome, never an
/// error.
pub fn parse_tierlist_html(html: &str) -> (r: Vec<BuildRecord>)
    ensures
        r@.map_values(|b: BuildRecord| b@) == extract_spec(html@),
{
    let r0 = extract_group(html, ".build-card, .comp-card, .tierlist-item");
    proof {
        assert(groups_spec()[0] == ".build-card, .comp-card, .tierlist-item"@);
        assert(groups_spec()[1] == "[data-testid='build'], [data-testid='comp']"@);
        assert(groups_spec()[2] == ".build, .comp, .team-comp"@);
        assert(groups_spec()[3] == ".card, .item"@);
    }
    if r0.len() > 0 {
        proof {
            assert(extract_spec(html@) == group_records(html@, groups_spec()[0]));
        }
        return r0;
    }
    let r1 = extract_group(html, "[data-testid='build'], [data-testid='comp']");
    if r1.len() > 0 {
        proof {
            assert(extract_spec(html@) == extract_from(html@, 1));
            assert(extract_from(html@, 1) == group_records(html@, groups_spec()[1]));
        }
        return r1;
    }
    let r2 = extract_group(html, ".build, .comp, .team-comp");
    if r2.len() > 0 {
        proof {
            assert(extract_spec(html@) == extract_from(html@, 1));
            assert(extract_from(html@, 1) == extract_from(html@, 2));
            assert(extract_from(html@, 2) == group_records(html@, groups_spec()[2]));
        }
        return r2;
    }
    let r3 = extract_group(html, ".card, .item");
    proof {
        assert(extract_spec(html@) == extract_from(html@, 1));
        assert(extract_from(html@, 1) == extract_from(html@, 2));
        assert(extract_from(html@, 2) == extract_from(html@, 3));
        if group_records(html@, groups_spec()[3]).len() > 0 {
            assert(extract_from(html@, 3) == group_records(html@, groups_spec()[3]));
        } else {
            assert(extract_from(html@, 3) == group_records(html@, groups_spec()[3])) by {
                assert(extract_from(html@, 3) == extract_from(html@, 4));
                assert(extract_from(html@, 4) =~= Seq::<RecordV>::empty());
                assert(group_records(html@, groups_spec()[3]) =~= Seq::<RecordV>::empty());
            }
        }
        assert(r3@.map_values(|b: BuildRecord| b@) =~= extract_spec(html@));
    }
    r3
}

} // verus!

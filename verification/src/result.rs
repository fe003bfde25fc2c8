//! The report builder: a race weekend resolved against the roster, and the
//! lines of the table that shows it.

use crate::display_order::lemma_canonical_order_members;
use crate::error::ReportError;
use crate::puller::{entry_views, Race, RaceResult, RaceResultView, RaceView};
use crate::roster::{
    all_ranked, backfilled, canonical_order, lemma_name_views_push, name_views, ordinal_of_name,
    resolve, resolved,
};
use crate::score::{
    base_points, constructor_mult, proximity_points, tenth_score, tier_multiplier, to_score,
};
use crate::text::{
    decimal, decimal_string, deunicode, deunicode_of, pad_right, pad_to, plain_ascii,
};
use crate::withdrawn::{
    lemma_backfilled_entries, lemma_backfilled_extends, lemma_backfilled_ranked,
    lemma_resolved_idempotent, lemma_resolved_keeps_and_orders,
};
use vstd::prelude::*;
use vstd::string::*;

verus! {

/// The first line of a table: what its columns hold.
pub const HEADER: &'static str = "Driver     \tPosition\tScore\tP10";

/// The second line of a table: a rule under the first.
pub const RULE: &'static str = "-------------------------------------------";

/// How a table shows where an entry finished: the rank, or, where there is
/// none, a tab and the position code with the position text in brackets.
pub open spec fn position_label(e: RaceResultView) -> Seq<char> {
    match e.rank() {
        Some(p) => decimal(p as nat),
        None => "\t"@ + e.position + "("@ + e.position_text + ")"@,
    }
}

/// A line of a table: the driver's display name padded to twelve
/// characters, the position padded to eight, the base points and the
/// proximity bonus, with a tab between each two.
pub open spec fn line_of(name: Seq<char>, position: Seq<char>, score: nat, tenth: nat) -> Seq<
    char,
> {
    pad_right(name, 12) + "\t"@ + pad_right(position, 8) + "\t"@ + decimal(score) + "\t"@
        + decimal(tenth)
}

/// The line of an entry.
pub open spec fn line_text(e: RaceResultView) -> Seq<char>
    recommends
        tier_multiplier(e.constructor) is Some,
{
    line_of(e.driver.name(), position_label(e), base_points(e), proximity_points(e))
}

/// The season's table gives every entry's constructor a weight.
pub open spec fn all_tiered(s: Seq<RaceResultView>) -> bool {
    forall|i: int| 0 <= i < s.len() ==> tier_multiplier((#[trigger] s[i]).constructor) is Some
}

/// The table of a list of entries: the two lines of the head, then one line
/// for each entry, in the order of the entries.
pub open spec fn block_text(s: Seq<RaceResultView>) -> Seq<Seq<char>> {
    seq![HEADER@, RULE@] + s.map_values(|e: RaceResultView| line_text(e))
}

/// The report of a weekend: where a sprint was held, its title, its table
/// and an empty line; then the title of the race and its table.
pub open spec fn report_text(race: RaceView) -> Seq<Seq<char>> {
    let sprint = if race.sprint_results.len() > 0 {
        seq!["Sprint Results"@] + block_text(race.sprint_results) + seq![Seq::<char>::empty()]
    } else {
        Seq::<Seq<char>>::empty()
    };
    sprint + seq!["Race Results"@] + block_text(race.results)
}

/// The drivers who have left the grid during the season.
pub open spec fn season_withdrawn() -> Seq<Seq<char>> {
    seq!["Doohan"@]
}

/// Every driver of the weekend, in the race and in the sprint, has a place
/// in display order.
pub open spec fn rankable(race: RaceView) -> bool {
    all_ranked(race.results) && all_ranked(race.sprint_results)
}

/// Whether the weekend can be resolved: with the withdrawn filled in, every
/// driver of the race has a place in display order, and so has every driver
/// of the sprint, where one was held.
pub open spec fn resolvable(race: RaceView) -> bool {
    &&& all_ranked(backfilled(race.results, season_withdrawn()))
    &&& race.sprint_results.len() > 0 ==> all_ranked(
        backfilled(race.sprint_results, season_withdrawn()),
    )
}

/// The season's table gives every constructor of the weekend a weight.
pub open spec fn reportable(race: RaceView) -> bool {
    all_tiered(race.results) && all_tiered(race.sprint_results)
}

/// The weekend with its race resolved and, where one was held, its sprint.
/// A weekend without a sprint gets no sprint entries.
pub open spec fn resolved_race(race: RaceView) -> RaceView {
    RaceView {
        results: resolved(race.results, season_withdrawn()),
        sprint_results: if race.sprint_results.len() > 0 {
            resolved(race.sprint_results, season_withdrawn())
        } else {
            race.sprint_results
        },
        ..race
    }
}

/// To resolve a weekend that was resolved changes nothing, and it can
/// always be done.
pub proof fn lemma_resolved_race_idempotent(race: RaceView)
    requires
        resolvable(race),
    ensures
        resolvable(resolved_race(race)),
        resolved_race(resolved_race(race)) == resolved_race(race),
{
    let w = season_withdrawn();
    lemma_resolved_idempotent(race.results, w);
    lemma_resolved_keeps_and_orders(race.results, w);
    if race.sprint_results.len() > 0 {
        lemma_resolved_idempotent(race.sprint_results, w);
        lemma_resolved_keeps_and_orders(race.sprint_results, w);
    }
}

/// A retired entry names a constructor that the table holds, so to resolve
/// a list neither brings in a constructor without a weight nor loses one.
pub proof fn lemma_resolved_tiers(s: Seq<RaceResultView>, withdrawn: Seq<Seq<char>>)
    requires
        all_ranked(backfilled(s, withdrawn)),
    ensures
        all_tiered(resolved(s, withdrawn)) == all_tiered(s),
{
    let filled = backfilled(s, withdrawn);
    let out = resolved(s, withdrawn);
    lemma_canonical_order_members(filled);
    lemma_backfilled_extends(s, withdrawn);
    if all_tiered(s) {
        assert forall|k: int| 0 <= k < out.len() implies tier_multiplier(
            (#[trigger] out[k]).constructor,
        ) is Some by {
            assert(canonical_order(filled).contains(out[k]));
            assert(filled.contains(out[k]));
            let i = choose|i: int| 0 <= i < filled.len() && filled[i] == out[k];
            if i < s.len() {
                assert(filled.take(s.len() as int)[i] == s[i]);
            } else {
                lemma_backfilled_entries(s, withdrawn, i);
            }
        }
    }
    if all_tiered(out) {
        assert forall|i: int| 0 <= i < s.len() implies tier_multiplier(
            (#[trigger] s[i]).constructor,
        ) is Some by {
            assert(filled.take(s.len() as int)[i] == filled[i]);
            assert(filled.contains(filled[i]));
            assert(canonical_order(filled).contains(s[i]));
            let k = choose|k: int| 0 <= k < out.len() && out[k] == s[i];
        }
    }
}

/// How a table shows where an entry finished.
pub fn position_text(result: &RaceResult) -> (r: String)
    ensures
        r@ == position_label(result@),
{
    match result.get_position() {
        Some(p) => decimal_string(p),
        None => {
            let mut s = String::from_str("\t");
            s.append(result.position.as_str());
            s.append("(");
            s.append(result.position_text.as_str());
            s.append(")");
            s
        },
    }
}

/// Lays out a line of a table.
pub fn format_line(name: &str, position: &str, score: u32, tenth: u32) -> (r: String)
    ensures
        r@ == line_of(name@, position@, score as nat, tenth as nat),
{
    let mut line = pad_to(String::from_str(name), 12);
    line.append("\t");
    line.append(pad_to(String::from_str(position), 8).as_str());
    line.append("\t");
    line.append(decimal_string(score).as_str());
    line.append("\t");
    line.append(decimal_string(tenth).as_str());
    line
}

/// The line of an entry whose constructor the season's table holds.
pub fn result_line(result: &RaceResult) -> (r: String)
    requires
        tier_multiplier(result@.constructor) is Some,
    ensures
        r@ == line_text(result@),
{
    let name = result.driver.get_name();
    let position = position_text(result);
    format_line(name.as_str(), position.as_str(), to_score(result), tenth_score(result))
}

/// Whether the season's table gives every entry's constructor a weight.
pub fn check_constructors(results: &Vec<RaceResult>) -> (r: bool)
    ensures
        r == all_tiered(entry_views(results@)),
{
    let ghost s = entry_views(results@);
    let mut i: usize = 0;
    while i < results.len()
        invariant
            s == entry_views(results@),
            i <= results@.len(),
            forall|j: int| 0 <= j < i ==> tier_multiplier((#[trigger] s[j]).constructor) is Some,
        decreases results@.len() - i,
    {
        if constructor_mult(results[i].constructor.name.as_str()).is_none() {
            assert(tier_multiplier(s[i as int].constructor) is None);
            return false;
        }
        i += 1;
    }
    true
}

/// Adds one line to the lines of a report.
fn push_line(lines: &mut Vec<String>, line: String)
    ensures
        name_views(final(lines)@) == name_views(old(lines)@).push(line@),
{
    proof {
        lemma_name_views_push(lines@, line);
    }
    lines.push(line);
}

/// Adds the table of a list of entries to the lines of a report.
fn push_block(lines: &mut Vec<String>, results: &Vec<RaceResult>)
    requires
        all_tiered(entry_views(results@)),
    ensures
        name_views(final(lines)@) == name_views(old(lines)@) + block_text(entry_views(results@)),
{
    let ghost start = name_views(lines@);
    let ghost s = entry_views(results@);
    let ghost body = s.map_values(|e: RaceResultView| line_text(e));
    push_line(lines, String::from_str(HEADER));
    push_line(lines, String::from_str(RULE));
    let mut i: usize = 0;
    assert(name_views(lines@) =~= start + seq![HEADER@, RULE@] + body.take(0));
    while i < results.len()
        invariant
            s == entry_views(results@),
            body == s.map_values(|e: RaceResultView| line_text(e)),
            all_tiered(s),
            i <= results@.len(),
            name_views(lines@) == start + seq![HEADER@, RULE@] + body.take(i as int),
        decreases results@.len() - i,
    {
        assert(tier_multiplier(s[i as int].constructor) is Some);
        push_line(lines, result_line(&results[i]));
        assert(name_views(lines@) =~= start + seq![HEADER@, RULE@] + body.take(i + 1));
        i += 1;
    }
    assert(body.take(i as int) =~= body);
    assert(name_views(lines@) =~= start + block_text(s));
}

/// The table of a list of entries, where the season's table holds the
/// constructor of each; the error where it does not.
pub fn render_results(results: &Vec<RaceResult>) -> (r: Result<Vec<String>, ReportError>)
    ensures
        r is Ok <==> all_tiered(entry_views(results@)),
        r is Ok ==> name_views(r->Ok_0@) == block_text(entry_views(results@)),
        r is Err ==> r->Err_0 == ReportError::UnknownConstructor,
{
    if !check_constructors(results) {
        return Err(ReportError::UnknownConstructor);
    }
    let mut lines: Vec<String> = Vec::new();
    assert(name_views(lines@) =~= Seq::<Seq<char>>::empty());
    push_block(&mut lines, results);
    assert(name_views(lines@) =~= block_text(entry_views(results@)));
    Ok(lines)
}

/// The drivers who have left the grid during the season, by display name:
/// each of the names is its own display name.
pub fn gone() -> (r: Vec<String>)
    ensures
        name_views(r@) == season_withdrawn(),
        forall|j: int|
            0 <= j < r@.len() ==> deunicode_of(#[trigger] name_views(r@)[j]) == name_views(r@)[j],
{
    let mut r: Vec<String> = Vec::new();
    proof {
        reveal_strlit("Doohan");
        assert(plain_ascii("Doohan"@));
    }
    r.push(deunicode("Doohan"));
    assert(name_views(r@) =~= season_withdrawn());
    r
}

/// A race weekend resolved against the roster.
pub struct RaceResults {
    race: Race,
}

impl View for RaceResults {
    type V = RaceView;

    closed spec fn view(&self) -> RaceView {
        self.race@
    }
}

impl RaceResults {
    /// What holds of every value: its weekend is resolved.
    #[verifier::type_invariant]
    spec fn settled(self) -> bool {
        resolvable(self.race@) && resolved_race(self.race@) == self.race@
    }

    /// Resolves a weekend: the race and, where one was held, the sprint.
    /// One entry whose driver has no place in display order stops it, and
    /// nothing else does: each of the withdrawn has a place.
    pub fn new(race: &Race) -> (r: Result<Self, ReportError>)
        ensures
            r is Ok <==> rankable(race@),
            r is Ok <==> resolvable(race@),
            r is Ok ==> r->Ok_0@ == resolved_race(race@),
            r is Err ==> r->Err_0 == ReportError::UnknownCompetitor,
    {
        let gone = gone();
        proof {
            let w = season_withdrawn();
            assert(name_views(gone@)[0] == w[0]);
            assert forall|j: int| 0 <= j < w.len() implies ordinal_of_name(
                deunicode_of(#[trigger] w[j]),
            ) is Some by {
                assert(deunicode_of(w[0]) == "Doohan"@);
            }
            lemma_backfilled_ranked(race@.results, w);
            lemma_backfilled_ranked(race@.sprint_results, w);
        }
        let results = match resolve(&race.results, &gone) {
            Ok(v) => v,
            Err(e) => {
                return Err(e);
            },
        };
        let mut own = race.clone();
        if race.sprint_results.len() > 0 {
            let sprint = match resolve(&race.sprint_results, &gone) {
                Ok(v) => v,
                Err(e) => {
                    return Err(e);
                },
            };
            own.sprint_results = sprint;
        }
        own.results = results;
        proof {
            lemma_resolved_race_idempotent(race@);
        }
        Ok(RaceResults { race: own })
    }

    /// The resolved weekend. To resolve it again would change nothing.
    pub fn race(&self) -> (r: &Race)
        ensures
            r@ == self@,
            resolvable(r@),
            resolved_race(r@) == r@,
    {
        proof {
            use_type_invariant(self);
        }
        &self.race
    }

    /// The lines of the report of the weekend. One constructor that the
    /// season's table does not hold stops it: then there is no line at all.
    pub fn render(&self) -> (r: Result<Vec<String>, ReportError>)
        ensures
            r is Ok <==> reportable(self@),
            r is Ok ==> name_views(r->Ok_0@) == report_text(self@),
            r is Err ==> r->Err_0 == ReportError::UnknownConstructor,
    {
        let race = &self.race;
        if !check_constructors(&race.sprint_results) || !check_constructors(&race.results) {
            return Err(ReportError::UnknownConstructor);
        }
        let mut lines: Vec<String> = Vec::new();
        assert(name_views(lines@) =~= Seq::<Seq<char>>::empty());
        if race.sprint_results.len() > 0 {
            push_line(&mut lines, String::from_str("Sprint Results"));
            push_block(&mut lines, &race.sprint_results);
            push_line(&mut lines, String::new());
            assert(name_views(lines@) =~= seq!["Sprint Results"@] + block_text(
                race@.sprint_results,
            ) + seq![Seq::<char>::empty()]);
        }
        let ghost head = name_views(lines@);
        push_line(&mut lines, String::from_str("Race Results"));
        push_block(&mut lines, &race.results);
        assert(name_views(lines@) =~= head + seq!["Race Results"@] + block_text(race@.results));
        Ok(lines)
    }
}

/// The lines of the report of a weekend as the service gave it: resolved
/// against the roster, then scored and laid out. A driver without a place in
/// display order stops it, and so does a constructor without a weight.
pub fn report(race: &Race) -> (r: Result<Vec<String>, ReportError>)
    ensures
        r is Ok <==> rankable(race@) && reportable(race@),
        r is Ok ==> name_views(r->Ok_0@) == report_text(resolved_race(race@)),
        r is Err ==> r->Err_0 == if rankable(race@) {
            ReportError::UnknownConstructor
        } else {
            ReportError::UnknownCompetitor
        },
{
    match RaceResults::new(race) {
        Ok(resolved) => {
            proof {
                lemma_resolved_tiers(race@.results, season_withdrawn());
                if race@.sprint_results.len() > 0 {
                    lemma_resolved_tiers(race@.sprint_results, season_withdrawn());
                }
            }
            resolved.render()
        },
        Err(e) => Err(e),
    }
}

} // verus!

//! What is read off the machine, and how it is said.

use vstd::prelude::*;
use crate::doctor::{
    at_left, at_right, bench_section, cli_section, files_section, format_label, gpu_lines,
    hub_section, library_section, model_lines, report_of, root_lines, serve_section,
    server_section, Facts,
};
use crate::ft::api::{answer_of, carried, field_if, last_carried, reply_of, CacheRebuild};
use crate::ft::checkout::{count_of, counts_of, counts_on, distance_of};
use crate::ft::locate::{
    candidate_list, direct_view, first_passing, python_candidates, python_view, venv_candidates,
    venv_list, FreetokenView, Test,
};
use crate::ft::preflight::{
    command_of, last_said, listing_of, outcome_of, python_of, said, OutcomeView,
};
use crate::ft::types::RequestRecord;
use crate::json::{json_of, json_of_bytes, JsonView};
use crate::paths::{joined_path, parent_of};
use crate::probe::{field_of, gpus_on, smi_gpu};
use crate::reuse::{
    coldest, estimate_of, hottest, lemma_extremes, lemma_prefilled_at_most_all,
    lemma_samples_measured, millis_in, samples_of, slower, spread, tokens_in, usable,
};
use crate::shell::{needs_quotes, shell_word, shell_words_of, words_from, Quote};
use crate::text::{dec, lines_of, pieces, trimmed, unsigned_of};
use crate::util::{
    bytes_text, count_text, half_even, nearest_double, nearest_quotient, percent_of, scale_down,
    scale_up, spacing,
};

verus! {

// ---------------------------------------------------------------- numbers

/// A quotient is rounded to the nearest whole number, and to the even one of two that are as
/// near.
pub proof fn law_a_quotient_is_rounded_to_the_nearest(a: nat, d: nat)
    requires
        d >= 1,
    ensures
        2 * (half_even(a, d) * d) <= 2 * a + d,
        2 * (half_even(a, d) * d) + d >= 2 * a,
        2 * (half_even(a, d) * d) == 2 * a + d || 2 * (half_even(a, d) * d) + d == 2 * a
            ==> half_even(a, d) % 2 == 0,
{
    let q = a / d;
    let r = a % d;
    vstd::arithmetic::div_mod::lemma_fundamental_div_mod(a as int, d as int);
    assert(a == q * d + r) by (nonlinear_arith)
        requires
            a == d * q + r,
    ;
    assert((q + 1) * d == q * d + d) by (nonlinear_arith);
    assert(r < d);
}

/// A whole number that a double cannot hold goes to the nearest that it can, one of the
/// multiples of the spacing there.
pub proof fn law_a_double_is_the_nearest(n: nat)
    ensures
        2 * nearest_double(n) <= 2 * n + spacing(n),
        2 * nearest_double(n) + spacing(n) >= 2 * n,
        nearest_double(n) == half_even(n, spacing(n)) * spacing(n),
{
    crate::util::lemma_spacing(n);
    law_a_quotient_is_rounded_to_the_nearest(n, spacing(n));
}

/// A quotient of doubles is the double nearest to it: its error is at most half of its last
/// digit.
pub proof fn law_a_share_is_the_nearest_double(a: nat, b: nat)
    requires
        b >= 1,
        scale_down(a * scale_up(a, b), b) >= 1,
    ensures
        ({
            let (digits, times, over) = nearest_quotient(a, b);
            let unit = b * times;
            &&& 2 * (digits * unit) <= 2 * (a * over) + unit
            &&& 2 * (digits * unit) + unit >= 2 * (a * over)
        }),
{
    let over = scale_up(a, b);
    let times = scale_down(a * over, b);
    assert(b * times >= 1) by (nonlinear_arith)
        requires
            b >= 1,
            times >= 1,
    ;
    law_a_quotient_is_rounded_to_the_nearest(a * over, b * times);
}

/// Nothing is no part of anything, and of nothing every part is none.
pub proof fn law_nothing_is_no_percent(part: nat)
    ensures
        percent_of(part, 0) == 0,
        crate::util::above_half(part, 0) == false,
{
    assert(scale_up(0, 1) == 1);
    assert(scale_down(0, 1) == 1);
    assert(half_even(0, 1) == 0);
    assert(nearest_quotient(0, 1) == (0nat, 1nat, 1nat));
}

// ---------------------------------------------------------------- sizes and counts

/// Below a kibibyte bytes are counted.
pub proof fn law_few_bytes_are_counted(n: nat)
    requires
        n < 1024,
    ensures
        bytes_text(n) == dec(n) + " B"@,
{
}

/// From a kibibyte on a size is shown in the largest unit that it reaches: below a hundred
/// of that unit in tenths, from there on in whole ones, either way to the nearest.
pub proof fn law_a_size_is_shown_in_its_unit(n: nat, unit: nat, name: Seq<char>) -> (shown: nat)
    requires
        1024 <= n < 0x20_0000_0000_0000,
        unit == 0x400 && name == " KiB"@ && n < 0x10_0000 || unit == 0x10_0000 && name == " MiB"@
            && 0x10_0000 <= n < 0x4000_0000 || unit == 0x4000_0000 && name == " GiB"@
            && 0x4000_0000 <= n < 0x100_0000_0000 || unit == 0x100_0000_0000 && name == " TiB"@
            && 0x100_0000_0000 <= n,
    ensures
        n < 100 * unit ==> bytes_text(n) == dec(shown / 10) + "."@ + dec(shown % 10) + name && 2 * (
        shown * unit) <= 20 * n + unit && 2 * (shown * unit) + unit >= 20 * n,
        n >= 100 * unit ==> bytes_text(n) == dec(shown) + name && 2 * (shown * unit) <= 2 * n
            + unit && 2 * (shown * unit) + unit >= 2 * n,
{
    crate::util::law_small_numbers_are_doubles(n);
    if n < 100 * unit {
        law_a_quotient_is_rounded_to_the_nearest(n * 10, unit);
        half_even(n * 10, unit)
    } else {
        law_a_quotient_is_rounded_to_the_nearest(n, unit);
        half_even(n, unit)
    }
}

/// A count is grouped by threes: what stands before a thousand, a comma, and three digits.
pub proof fn law_a_count_is_grouped_by_threes(n: nat, a: nat, b: nat, c: nat)
    requires
        n > 0,
        a < 10,
        b < 10,
        c < 10,
    ensures
        count_text(1000 * n + 100 * a + 10 * b + c) == count_text(n) + ","@ + (dec(a) + dec(b)
            + dec(c)),
{
    let m = 1000 * n + 100 * a + 10 * b + c;
    let r = 100 * a + 10 * b + c;
    assert(m / 1000 == n && m % 1000 == r);
    assert(r / 100 == a && (r / 10) % 10 == b && r % 10 == c);
}

/// Below a thousand a count is its numeral.
pub proof fn law_a_small_count_is_its_numeral(n: nat)
    requires
        n < 1000,
    ensures
        count_text(n) == dec(n),
{
}

/// Tokens are counted in k and M of 1024: whole where they are a multiple.
pub proof fn law_round_token_counts_are_whole(n: nat)
    requires
        n > 0,
    ensures
        n < 1024 ==> crate::plan::tokens_text(n * 1024) == dec(n) + "k"@,
        crate::plan::tokens_text(n * 0x10_0000) == dec(n) + "M"@,
        n < 1024 ==> crate::plan::tokens_text(n) == dec(n),
{
    assert((n * 1024) % 1024 == 0 && (n * 1024) / 1024 == n);
    assert((n * 0x10_0000) % 0x10_0000 == 0 && (n * 0x10_0000) / 0x10_0000 == n);
}

// ---------------------------------------------------------------- prefix reuse

/// A request counts towards the estimate when it was answered, took measurable time to its
/// first token, and read a prompt of at least 2048 tokens.
pub proof fn law_which_requests_count(r: RequestRecord)
    ensures
        usable(r) <==> r.prompt_tokens is Some && r.prompt_tokens->0 >= 2048 && r.ttft_ms is Some
            && r.ttft_ms->0 > 0 && r.status < 400,
{
}

/// Each request that counts is a sample of its tokens and of its time, in order.
pub proof fn law_each_request_is_a_sample(entries: Seq<RequestRecord>, r: RequestRecord)
    ensures
        usable(r) ==> samples_of(entries.push(r)) == samples_of(entries).push(
            (r.prompt_tokens->0, r.ttft_ms->0),
        ),
        !usable(r) ==> samples_of(entries.push(r)) == samples_of(entries),
        samples_of(Seq::empty()).len() == 0,
{
    assert(entries.push(r).drop_last() =~= entries);
}

/// The totals are sums over the samples.
pub proof fn law_samples_add_up(s: Seq<(u64, u64)>, tokens: u64, ms: u64)
    ensures
        tokens_in(s.push((tokens, ms))) == tokens_in(s) + tokens,
        millis_in(s.push((tokens, ms))) == millis_in(s) + ms,
        tokens_in(Seq::empty()) == 0,
        millis_in(Seq::empty()) == 0,
{
    assert(s.push((tokens, ms)).drop_last() =~= s);
}

/// There is an estimate exactly when there are three samples at least, and one of them was
/// read half as fast again as another.
pub proof fn law_when_reuse_is_estimated(entries: Seq<RequestRecord>)
    ensures
        estimate_of(entries) is Some <==> samples_of(entries).len() >= 3 && exists|i: int, j: int|
            0 <= i < samples_of(entries).len() && 0 <= j < samples_of(entries).len() && half_again(
                #[trigger] samples_of(entries)[i],
                #[trigger] samples_of(entries)[j],
            ),
{
    let s = samples_of(entries);
    lemma_samples_measured(entries);
    if s.len() >= 3 {
        lemma_extremes(s);
        let h = hottest(s);
        let c = coldest(s);
        if spread(s) {
            let i = choose|i: int| 0 <= i < s.len() && s[i] == h;
            let j = choose|j: int| 0 <= j < s.len() && s[j] == c;
            assert(half_again(s[i], s[j]));
        }
        if exists|i: int, j: int|
            0 <= i < s.len() && 0 <= j < s.len() && half_again(#[trigger] s[i], #[trigger] s[j]) {
            let (i, j) = choose|i: int, j: int|
                0 <= i < s.len() && 0 <= j < s.len() && half_again(
                    #[trigger] s[i],
                    #[trigger] s[j],
                );
            assert(!slower(h, s[i]) && !slower(s[j], c));
            lemma_spread(s[i], s[j], h, c);
        }
    }
}

/// `a` was read at one and a half times the rate of `b`, or faster.
pub open spec fn half_again(a: (u64, u64), b: (u64, u64)) -> bool {
    2 * (a.0 * b.1) >= 3 * (b.0 * a.1)
}

proof fn lemma_spread(a: (u64, u64), b: (u64, u64), h: (u64, u64), c: (u64, u64))
    requires
        half_again(a, b),
        !slower(h, a),
        !slower(b, c),
        a.1 > 0,
        b.0 > 0,
    ensures
        half_again(h, c),
{
    let (a0, a1) = (a.0 as int, a.1 as int);
    let (b0, b1) = (b.0 as int, b.1 as int);
    let (h0, h1) = (h.0 as int, h.1 as int);
    let (c0, c1) = (c.0 as int, c.1 as int);
    let x = h0 * a1;
    let y = a0 * h1;
    let u = b0 * c1;
    let v = c0 * b1;
    assert(x >= y && u >= v);
    assert(x * u >= y * v) by (nonlinear_arith)
        requires
            x >= y,
            u >= v,
            y >= 0,
            v >= 0,
    ;
    let p = 2 * (a0 * b1);
    let q = 3 * (b0 * a1);
    assert(p >= q);
    let w = h1 * c0;
    assert(w >= 0) by (nonlinear_arith)
        requires
            h1 >= 0,
            c0 >= 0,
            w == h1 * c0,
    ;
    assert(p * w >= q * w) by (nonlinear_arith)
        requires
            p >= q,
            w >= 0,
    ;
    let k = b0 * a1;
    assert(k > 0) by (nonlinear_arith)
        requires
            b0 > 0,
            a1 > 0,
            k == b0 * a1,
    ;
    let m = 2 * (h0 * c1);
    let n = 3 * (c0 * h1);
    assert(m * k == 2 * (x * u)) by (nonlinear_arith)
        requires
            m == 2 * (h0 * c1),
            k == b0 * a1,
            x == h0 * a1,
            u == b0 * c1,
    ;
    assert(2 * (y * v) == p * w) by (nonlinear_arith)
        requires
            y == a0 * h1,
            v == c0 * b1,
            p == 2 * (a0 * b1),
            w == h1 * c0,
    ;
    assert(n * k == q * w) by (nonlinear_arith)
        requires
            n == 3 * (c0 * h1),
            k == b0 * a1,
            q == 3 * (b0 * a1),
            w == h1 * c0,
    ;
    assert(m >= n) by (nonlinear_arith)
        requires
            m * k >= n * k,
            k > 0,
    ;
}

/// The estimate measures every sample against the coldest: what was read beyond its rate is
/// held to come from the cache.
pub proof fn law_reuse_is_what_beats_the_coldest_rate(entries: Seq<RequestRecord>)
    requires
        crate::reuse::countable(entries),
        estimate_of(entries) is Some,
    ensures
        ({
            let r = estimate_of(entries)->0;
            let s = samples_of(entries);
            &&& r.samples == s.len() as usize
            &&& r.total as int == tokens_in(s) * r.cold_ms
            &&& r.cached as int == tokens_in(s) * r.cold_ms - millis_in(s) * r.cold_tokens
        }),
{
    let s = samples_of(entries);
    let c = coldest(s);
    lemma_samples_measured(entries);
    lemma_extremes(s);
    lemma_prefilled_at_most_all(s, c);
    assert(tokens_in(s) * c.1 <= u128::MAX) by (nonlinear_arith)
        requires
            tokens_in(s) <= u64::MAX,
            c.1 <= u64::MAX,
    ;
    assert(millis_in(s) * c.0 >= 0) by (nonlinear_arith)
        requires
            millis_in(s) >= 0,
            c.0 >= 0,
    ;
}

// ---------------------------------------------------------------- finding the CLI

/// The first candidate that passes is the one taken.
pub proof fn law_the_first_that_passes_is_taken(passed: Seq<bool>, i: int)
    requires
        0 <= i,
    ensures
        first_passing(passed, i) is None <==> (forall|j: int|
            i <= j < passed.len() ==> !#[trigger] passed[j]),
        first_passing(passed, i) is Some ==> i <= first_passing(passed, i)->0 < passed.len()
            && passed[first_passing(passed, i)->0] && forall|j: int|
            i <= j < first_passing(passed, i)->0 ==> !#[trigger] passed[j],
    decreases passed.len() - i,
{
    if i < passed.len() && !passed[i] {
        law_the_first_that_passes_is_taken(passed, i + 1);
    }
}

/// What is configured is tried before what is on the path, that before the environments that
/// are found, and those before any interpreter.
pub proof fn law_what_is_configured_is_tried_first(
    binary: Seq<char>,
    venv: Seq<char>,
    ft: Seq<char>,
    venvs: Seq<Seq<char>>,
    pythons: Seq<Seq<char>>,
    i: int,
)
    ensures
        ({
            let l = candidate_list(Some(binary), Some(venv), Some(ft), venvs, pythons);
            &&& l.len() == 4 + venvs.len() + pythons.len()
            &&& l[0].1.program == binary && l[0].0 == Test::Executable
            &&& l[1].1.program == joined_path(venv, "bin/ft"@) && l[1].0 == Test::Executable
            &&& l[2].1.program == joined_path(venv, "bin/python"@) && l[2].1.prefix == seq![
                "-m"@,
                "freetoken.cli"@,
            ]
            &&& l[3].1.program == ft && l[3].0 == Test::Given
            &&& 0 <= i < venvs.len() ==> l[4 + i].1.program == joined_path(venvs[i], "bin/ft"@)
                && l[4 + i].1.prefix.len() == 0 && l[4 + i].0 == Test::Executable
            &&& 0 <= i < pythons.len() ==> l[4 + venvs.len() + i].1.program == pythons[i]
                && l[4 + venvs.len() + i].0 == Test::Imports && l[4 + venvs.len() + i].1.prefix
                == seq!["-m"@, "freetoken.cli"@]
        }),
        ({
            let l = candidate_list(None, None, None, venvs, pythons);
            l.len() == venvs.len() + pythons.len() && (0 <= i < venvs.len() ==> l[i].1.program
                == joined_path(venvs[i], "bin/ft"@))
        }),
{
    lemma_venv_candidates(venvs, i);
    lemma_python_candidates(pythons, i);
}

proof fn lemma_venv_candidates(venvs: Seq<Seq<char>>, i: int)
    ensures
        venv_candidates(venvs).len() == venvs.len(),
        0 <= i < venvs.len() ==> venv_candidates(venvs)[i] == (
            Test::Executable,
            direct_view(joined_path(venvs[i], "bin/ft"@), "discovered venv"@),
        ),
    decreases venvs.len(),
{
    if venvs.len() > 0 {
        lemma_venv_candidates(venvs.drop_last(), i);
    }
}

proof fn lemma_python_candidates(pythons: Seq<Seq<char>>, i: int)
    ensures
        python_candidates(pythons).len() == pythons.len(),
        0 <= i < pythons.len() ==> python_candidates(pythons)[i] == (
            Test::Imports,
            python_view(pythons[i], "PATH python"@),
        ),
    decreases pythons.len(),
{
    if pythons.len() > 0 {
        lemma_python_candidates(pythons.drop_last(), i);
    }
}

/// The environments that are looked into: the active one, the usual places under the home
/// directory, and the usual places of an installation, in this order.
pub proof fn law_where_environments_are_looked_for(active: Seq<char>, home: Seq<char>)
    ensures
        venv_list(Some(active), Some(home)).take(7) == seq![
            active,
            joined_path(home, ".venv"@),
            joined_path(home, "venv"@),
            joined_path(home, "FreeToken/.venv"@),
            joined_path(home, "freetoken/.venv"@),
            joined_path(home, ".local/share/freetoken/venv"@),
            joined_path(home, ".freetoken/venv"@),
        ],
        venv_list(Some(active), Some(home)).len() == 19,
        venv_list(Some(active), Some(home)).skip(7) == venv_list(None, None),
        venv_list(None, None) == seq![
            "/opt/freetoken"@,
            joined_path("/opt/freetoken"@, ".venv"@),
            joined_path("/opt/freetoken"@, "venv"@),
            "/opt/FreeToken"@,
            joined_path("/opt/FreeToken"@, ".venv"@),
            joined_path("/opt/FreeToken"@, "venv"@),
            "/usr/local/freetoken"@,
            joined_path("/usr/local/freetoken"@, ".venv"@),
            joined_path("/usr/local/freetoken"@, "venv"@),
            "/srv/freetoken"@,
            joined_path("/srv/freetoken"@, ".venv"@),
            joined_path("/srv/freetoken"@, "venv"@),
        ],
{
    reveal_with_fuel(crate::ft::locate::home_venvs, 7);
    reveal_with_fuel(crate::ft::locate::system_venvs, 5);
    assert(crate::ft::locate::system_venvs(4).len() == 12);
    assert(crate::ft::locate::home_venvs(home, 6).len() == 6);
}

// ---------------------------------------------------------------- checks

/// A check answers in its first word; what follows is what it has to say.
pub proof fn law_a_check_answers_in_its_first_word(detail: Seq<char>, line: Seq<char>)
    ensures
        trimmed(line) == "OK "@ + detail ==> outcome_of(line) == OutcomeView::Clean(detail),
        trimmed(line) == "WARN "@ + detail ==> outcome_of(line) == OutcomeView::Warn(detail),
        trimmed(line) == "FAIL "@ + detail ==> outcome_of(line) == OutcomeView::Fail(detail),
        outcome_of(line) is Clean ==> "OK "@.is_prefix_of(trimmed(line)),
        outcome_of(line) is Warn ==> "WARN "@.is_prefix_of(trimmed(line)),
{
    reveal_strlit("OK ");
    reveal_strlit("WARN ");
    reveal_strlit("FAIL ");
    let l = trimmed(line);
    let ok = "OK "@;
    let warn = "WARN "@;
    let fail = "FAIL "@;
    assert(ok.len() == 3 && warn.len() == 5 && fail.len() == 5);
    if l == ok + detail {
        assert(l.subrange(0, 3) =~= ok);
        assert(l.skip(3) =~= detail);
    }
    if l == warn + detail {
        assert(l.subrange(0, 5) =~= warn);
        assert(l.skip(5) =~= detail);
        assert(l[0] == 'W');
        if ok.is_prefix_of(l) {
            assert(l.subrange(0, 3)[0] == l[0]);
            assert(ok[0] == 'O');
        }
    }
    if l == fail + detail {
        assert(l.subrange(0, 5) =~= fail);
        assert(l.skip(5) =~= detail);
        assert(l[0] == 'F');
        if ok.is_prefix_of(l) {
            assert(l.subrange(0, 3)[0] == l[0]);
            assert(ok[0] == 'O');
        }
        if warn.is_prefix_of(l) {
            assert(l.subrange(0, 5)[0] == l[0]);
            assert(warn[0] == 'W');
        }
    }
}

/// The last line that says anything is the one that counts.
pub proof fn law_the_last_line_said_counts(lines: Seq<Seq<char>>, line: Seq<char>)
    ensures
        trimmed(line).len() > 0 ==> last_said(lines.push(line)) == Some(line),
        trimmed(line).len() == 0 ==> last_said(lines.push(line)) == last_said(lines),
        trimmed(line).len() > 0 ==> said(lines.push(line)) == said(lines).push(trimmed(line)),
        trimmed(line).len() == 0 ==> said(lines.push(line)) == said(lines),
        last_said(Seq::empty()) is None,
        said(Seq::empty()).len() == 0,
{
    assert(lines.push(line).drop_last() =~= lines);
}

/// The architectures are all that is said behind the line that says it went well.
pub proof fn law_architectures_stand_behind_the_first_line(stdout: Seq<char>, i: int)
    requires
        said(lines_of(stdout)).len() >= 2,
        "OK "@.is_prefix_of(said(lines_of(stdout))[0]),
    ensures
        listing_of(stdout) is Ok,
        listing_of(stdout)->Ok_0.len() == said(lines_of(stdout)).len() - 1,
        0 <= i < listing_of(stdout)->Ok_0.len() ==> listing_of(stdout)->Ok_0[i] == said(
            lines_of(stdout),
        )[i + 1],
{
}

/// A check runs in the interpreter that the CLI runs in, as a script with its arguments.
pub proof fn law_a_check_runs_in_the_clis_interpreter(
    ft: FreetokenView,
    dir: Seq<char>,
    script: Seq<char>,
    args: Seq<Seq<char>>,
)
    ensures
        ft.prefix == seq!["-m"@, "freetoken.cli"@] ==> python_of(ft, false) == Some(ft.program)
            && python_of(ft, true) == Some(ft.program),
        ft.prefix.len() == 0 || ft.prefix[0] != "-m"@ ==> python_of(ft, false) is None,
        ft.prefix.len() == 0 && parent_of(ft.program) == Some(dir) ==> python_of(ft, true) == Some(
            joined_path(dir, "python"@),
        ),
        command_of(Some(ft.program), script, args) == Some(
            seq![ft.program, "-c"@, script] + args,
        ),
        command_of(None, script, args) is None,
{
}

// ---------------------------------------------------------------- the checkout

/// The two counts of `rev-list --left-right` are how far ahead and how far behind.
pub proof fn law_the_two_counts_are_ahead_and_behind(
    text: Seq<char>,
    a: Seq<char>,
    b: Seq<char>,
    ahead: usize,
    behind: usize,
)
    requires
        pieces(trimmed(text), '\n') == seq![text],
        pieces(text, '\t') == seq![a, b],
        count_of(a) == Some(ahead),
        count_of(b) == Some(behind),
    ensures
        distance_of(text) == (ahead, behind),
{
    let lines = seq![text];
    assert(lines.drop_last() =~= Seq::<Seq<char>>::empty());
    assert(counts_on(lines.drop_last()) =~= Seq::<usize>::empty());
    let p = seq![a, b];
    assert(p.drop_last() =~= seq![a]);
    assert(seq![a].drop_last() =~= Seq::<Seq<char>>::empty());
    assert(counts_of(Seq::<Seq<char>>::empty()) =~= Seq::<usize>::empty());
    assert(counts_of(seq![a]) =~= seq![ahead]);
    assert(counts_of(p) =~= seq![ahead, behind]);
    assert(counts_on(lines) =~= seq![ahead, behind]);
}

/// A count is a numeral, with or without spaces round it.
pub proof fn law_a_count_is_a_numeral(s: Seq<char>, n: usize)
    requires
        trimmed(s) == dec(n as nat),
    ensures
        count_of(s) == Some(n),
{
    crate::text::law_a_numeral_reads_back(n as nat);
}

// ---------------------------------------------------------------- the card

/// A line of `nvidia-smi` names a card by its fields, with its memory in mebibytes; what is
/// not available is not known.
pub proof fn law_a_card_is_read_off_its_line(line: Seq<char>, total: nat, used: nat, index: nat)
    requires
        pieces(line, ',').len() == 11,
        unsigned_of(field_of(line, 3)) == Some(total),
        unsigned_of(field_of(line, 4)) == Some(used),
        unsigned_of(field_of(line, 0)) == Some(index),
        total * 1048576 <= u64::MAX,
        used * 1048576 <= u64::MAX,
        index <= u32::MAX,
    ensures
        ({
            let g = smi_gpu(line)->0;
            &&& smi_gpu(line) is Some
            &&& g.index == index
            &&& g.name == trimmed(pieces(line, ',')[1])
            &&& g.uuid == trimmed(pieces(line, ',')[2])
            &&& g.memory_total == total * 1048576
            &&& g.memory_used == used * 1048576
            &&& field_of(line, 7) == "[N/A]"@ ==> g.power_draw is None
            &&& field_of(line, 7).len() > 0 && field_of(line, 7) != "[N/A]"@ && field_of(line, 7)
                != "N/A"@ ==> g.power_draw == Some(field_of(line, 7))
            &&& field_of(line, 8).len() > 0 && field_of(line, 8) != "[N/A]"@ && field_of(line, 8)
                != "N/A"@ ==> g.power_limit == Some(field_of(line, 8))
            &&& field_of(line, 5) == "[N/A]"@ ==> g.utilization is None
            &&& field_of(line, 6) == "[N/A]"@ ==> g.temperature is None
            &&& field_of(line, 9) == "[N/A]"@ || field_of(line, 10) == "[N/A]"@ ==> g.pcie_link
                is None
        }),
        pieces(line, ',').len() < 5 ==> smi_gpu(line) is None,
{
}

/// The use and the heat of a card are the numbers in their fields.
pub proof fn law_use_and_heat_are_read_off_their_fields(line: Seq<char>, n: nat)
    requires
        pieces(line, ',').len() == 11,
        n <= u32::MAX,
    ensures
        field_of(line, 5) == dec(n) && dec(n) != "[N/A]"@ && dec(n) != "N/A"@
            ==> smi_gpu(line)->0.utilization == Some(n as u32),
        field_of(line, 6) == dec(n) && dec(n) != "[N/A]"@ && dec(n) != "N/A"@
            ==> smi_gpu(line)->0.temperature == Some(n as u32),
{
    crate::text::law_a_numeral_reads_back(n);
    crate::text::lemma_dec_starts_with_a_digit(n);
}

/// Every line that names a card adds one, in order.
pub proof fn law_every_card_is_listed(lines: Seq<Seq<char>>, line: Seq<char>)
    ensures
        smi_gpu(line) is Some ==> gpus_on(lines.push(line)) == gpus_on(lines).push(smi_gpu(line)->0),
        smi_gpu(line) is None ==> gpus_on(lines.push(line)) == gpus_on(lines),
        gpus_on(Seq::empty()).len() == 0,
{
    assert(lines.push(line).drop_last() =~= lines);
}

// ---------------------------------------------------------------- the engine's answers

/// A reply that says it failed is an error; any other is what its body holds, if it holds
/// JSON.
pub proof fn law_a_reply_is_what_its_body_holds(
    path: Seq<char>,
    status: Seq<char>,
    body: Seq<u8>,
    v: JsonView,
)
    ensures
        reply_of(path, status, false, body) is Err,
        json_of_bytes(body) == Ok::<JsonView, Seq<char>>(v) ==> reply_of(path, status, true, body)
            == Ok::<JsonView, Seq<char>>(v),
        json_of_bytes(body) is Err ==> reply_of(path, status, true, body) is Err,
{
}

/// An answer is the content of the first choice, without the spaces round it; a blank one is
/// an error.
pub proof fn law_an_answer_is_the_first_choice(
    v: JsonView,
    choices: Seq<JsonView>,
    message: JsonView,
    text: Seq<char>,
    max_tokens: u32,
)
    requires
        v.get("choices"@) == Some(JsonView::List(choices)),
        choices.len() > 0,
        choices[0].get("message"@) == Some(message),
        message.get("content"@) == Some(JsonView::Text(text)),
    ensures
        trimmed(text).len() > 0 ==> answer_of(v, max_tokens) == Ok::<Seq<char>, Seq<char>>(
            trimmed(text),
        ),
        trimmed(text).len() == 0 ==> answer_of(v, max_tokens) is Err,
{
}

/// Of a stream the last frame that carries text counts: each frame carries all of the text
/// so far. A frame is what stands behind `data:`, but for the one that ends the stream.
pub proof fn law_the_last_frame_carries_the_text(
    lines: Seq<Seq<char>>,
    payload: Seq<char>,
    v: JsonView,
    text: Seq<char>,
)
    requires
        trimmed(payload).len() > 0,
        trimmed(payload) != "[DONE]"@,
        json_of(trimmed(payload)) == Ok::<JsonView, Seq<char>>(v),
        v.get("text"@) == Some(JsonView::Text(text)),
    ensures
        carried("data:"@ + payload) == Some(text),
        last_carried(lines.push("data:"@ + payload)) == text,
        trimmed("data:"@.skip(5)).len() == 0 ==> carried("data:"@) is None,
{
    reveal_strlit("data:");
    let line = "data:"@ + payload;
    assert("data:"@.len() == 5);
    assert(line.subrange(0, 5) =~= "data:"@);
    assert(line.skip(5) =~= payload);
    assert(lines.push(line).drop_last() =~= lines);
}

/// A line that carries nothing changes nothing.
pub proof fn law_an_empty_frame_changes_nothing(lines: Seq<Seq<char>>, line: Seq<char>)
    ensures
        carried(line) is None ==> last_carried(lines.push(line)) == last_carried(lines),
        !"data:"@.is_prefix_of(line) ==> carried(line) is None,
{
    assert(lines.push(line).drop_last() =~= lines);
}

/// A rebuild names each pool that it resizes, with its size, and no other.
pub proof fn law_a_rebuild_names_its_pools(r: CacheRebuild, n: u64)
    ensures
        r.named().contains(("moe_cache_size"@, n)) <==> r.moe_cache_size == Some(n),
        r.named().contains(("num_pages"@, n)) <==> r.num_pages == Some(n),
        r.named().contains(("num_mamba_slots"@, n)) <==> r.num_mamba_slots == Some(n),
        r.named().contains(("num_swa_pages"@, n)) <==> r.num_swa_pages == Some(n),
{
    reveal_strlit("moe_cache_size");
    reveal_strlit("num_pages");
    reveal_strlit("num_mamba_slots");
    reveal_strlit("num_swa_pages");
    assert("moe_cache_size"@.len() == 14 && "num_pages"@.len() == 9 && "num_mamba_slots"@.len()
        == 15 && "num_swa_pages"@.len() == 13);
    let a = field_if("moe_cache_size"@, r.moe_cache_size);
    let b = field_if("num_pages"@, r.num_pages);
    let c = field_if("num_mamba_slots"@, r.num_mamba_slots);
    let d = field_if("num_swa_pages"@, r.num_swa_pages);
    if r.moe_cache_size == Some(n) {
        assert(r.named()[0] == ("moe_cache_size"@, n));
    }
    if r.num_pages == Some(n) {
        assert(r.named()[a.len() as int] == ("num_pages"@, n));
    }
    if r.num_mamba_slots == Some(n) {
        assert(r.named()[(a.len() + b.len()) as int] == ("num_mamba_slots"@, n));
    }
    if r.num_swa_pages == Some(n) {
        assert(r.named()[(a.len() + b.len() + c.len()) as int] == ("num_swa_pages"@, n));
    }
}

/// Under a key stands the first entry of it.
pub proof fn law_the_first_entry_of_a_key_counts(
    e: Seq<(Seq<char>, JsonView)>,
    key: Seq<char>,
    v: JsonView,
    other: Seq<char>,
)
    ensures
        JsonView::Object(seq![(key, v)] + e).get(key) == Some(v),
        other != key ==> JsonView::Object(seq![(key, v)] + e).get(other) == JsonView::Object(e).get(
            other,
        ),
        JsonView::Object(Seq::empty()).get(key) is None,
{
    assert((seq![(key, v)] + e).drop_first() =~= e);
}

// ---------------------------------------------------------------- command lines

/// A word without anything that a shell reads stands in a command line as it is; any other
/// is quoted.
pub proof fn law_a_plain_word_stands_as_it_is(w: Seq<char>, i: int)
    ensures
        (forall|j: int| 0 <= j < w.len() ==> !needs_quotes(#[trigger] w[j])) ==> shell_word(w) == w,
        0 <= i < w.len() && needs_quotes(w[i]) ==> shell_word(w).len() >= 2 && shell_word(w)[0]
            == '\'' && shell_word(w).last() == '\'',
{
    reveal_strlit("'");
    assert("'"@.len() == 1 && "'"@[0] == '\'');
}

/// Letters, digits and the usual marks of a path need no quotes; spaces and what a shell
/// reads do.
pub proof fn law_what_needs_quotes(c: char)
    ensures
        'a' <= c <= 'z' || 'A' <= c <= 'Z' || '0' <= c <= '9' || c == '-' || c == '_' || c == '.'
            || c == '/' || c == ':' || c == '=' || c == ',' || c == '+' || c == '@' || c == '%'
            ==> !needs_quotes(c),
        c == ' ' || c == '\t' || c == '\n' || c == '"' || c == '\'' || c == '$' || c == '`' || c
            == '\\' || c == '|' || c == '&' || c == ';' || c == '<' || c == '>' || c == '(' || c
            == ')' || c == '*' || c == '?' || c == '[' || c == ']' || c == '{' || c == '}' || c
            == '~' || c == '#' || c == '!' ==> needs_quotes(c),
{
    reveal_strlit("\"'$`\\|&;<>()*?[]{}~#!");
    let s = "\"'$`\\|&;<>()*?[]{}~#!"@;
    assert(s[0] == '"' && s[1] == '\'' && s[2] == '$' && s[3] == '`' && s[4] == '\\' && s[5] == '|'
        && s[6] == '&' && s[7] == ';' && s[8] == '<' && s[9] == '>' && s[10] == '(' && s[11] == ')'
        && s[12] == '*' && s[13] == '?' && s[14] == '[' && s[15] == ']' && s[16] == '{' && s[17]
        == '}' && s[18] == '~' && s[19] == '#' && s[20] == '!');
    assert(s.len() == 21);
    if s.contains(c) {
        let i = choose|i: int| 0 <= i < s.len() && s[i] == c;
        assert(s[i] == c);
    }
}

proof fn lemma_in_double_quotes(w: Seq<char>, done: Seq<Seq<char>>, read: Seq<char>)
    requires
        forall|i: int|
            0 <= i < w.len() ==> #[trigger] w[i] != '"' && w[i] != '$' && w[i] != '`' && w[i]
                != '\\',
    ensures
        words_from(w + seq!['"'], Quote::Double, done, Some(read)) == Some(done.push(read + w)),
    decreases w.len(),
{
    reveal_with_fuel(words_from, 2);
    let s = w + seq!['"'];
    if w.len() == 0 {
        assert(s[0] == '"');
        assert(s.drop_first() =~= Seq::<char>::empty());
        assert(read + w =~= read);
    } else {
        let tail = w.drop_first();
        assert(s[0] == w[0]);
        assert(s.drop_first() =~= tail + seq!['"']);
        assert forall|i: int| 0 <= i < tail.len() implies #[trigger] tail[i] != '"' && tail[i]
            != '$' && tail[i] != '`' && tail[i] != '\\' by {
            assert(tail[i] == w[i + 1]);
        }
        lemma_in_double_quotes(tail, done, read.push(w[0]));
        assert(read.push(w[0]) + tail =~= read + w);
    }
}

/// What stands in double quotes is one word, spaces and all; a quote that is not closed makes
/// the whole unreadable.
pub proof fn law_double_quotes_hold_one_word(w: Seq<char>)
    requires
        forall|i: int|
            0 <= i < w.len() ==> #[trigger] w[i] != '"' && w[i] != '$' && w[i] != '`' && w[i]
                != '\\',
    ensures
        shell_words_of(seq!['"'] + w + seq!['"']) == Some(seq![w]),
        shell_words_of(seq!['"']) is None,
        shell_words_of(seq!['\'']) is None,
        shell_words_of(Seq::empty()) == Some(Seq::<Seq<char>>::empty()),
{
    reveal_with_fuel(words_from, 2);
    let s = seq!['"'] + w + seq!['"'];
    assert(s[0] == '"');
    assert(s.drop_first() =~= w + seq!['"']);
    lemma_in_double_quotes(w, Seq::empty(), Seq::empty());
    assert(Seq::<char>::empty() + w =~= w);
    assert(Seq::<Seq<char>>::empty().push(w) =~= seq![w]);
    assert(seq!['"'].drop_first() =~= Seq::<char>::empty());
    assert(seq!['\''].drop_first() =~= Seq::<char>::empty());
}

// ---------------------------------------------------------------- bandwidth profiles

/// A card's own profile comes first, then the newest of any, then the file of before there
/// were several.
pub proof fn law_a_cards_own_profile_comes_first(
    cache: Seq<char>,
    uuid: Seq<char>,
    files: Seq<(u64, String)>,
    legacy: bool,
)
    ensures
        uuid.len() > 0 ==> crate::plan::profile_found(cache, Some(uuid), true, files, legacy)
            == Some(
            joined_path(joined_path(joined_path(cache, "freetoken"@), "benchbw"@), uuid + ".json"@),
        ),
        crate::plan::profile_found(cache, None, true, Seq::empty(), true) == Some(
            joined_path(joined_path(cache, "freetoken"@), "benchbw.json"@),
        ),
        crate::plan::profile_found(cache, Some(uuid), false, Seq::empty(), false) is None,
{
}

/// A file counts as a profile by its extension.
pub proof fn law_profiles_are_json_files(files: Seq<(u64, String)>, f: (u64, String))
    ensures
        crate::plan::profiles_among(files.push(f)) == (if crate::models::extension_of(f.1@) == Some(
            "json"@,
        ) {
            crate::plan::profiles_among(files).push(f)
        } else {
            crate::plan::profiles_among(files)
        }),
        crate::plan::profiles_among(Seq::empty()).len() == 0,
{
    assert(files.push(f).drop_last() =~= files);
}

/// A command line is cut at spaces; what a shell would act on makes it unreadable.
pub proof fn law_what_a_shell_acts_on_is_not_read(c: char)
    ensures
        c == '$' || c == '`' || c == '|' || c == '&' || c == ';' || c == '<' || c == '>' || c == '('
            || c == ')' || c == '*' || c == '?' || c == '[' || c == ']' || c == '{' || c == '}' || c
            == '~' || c == '#' || c == '!' ==> shell_words_of(seq![c]) is None,
        c == ' ' || c == '\t' || c == '\n' ==> shell_words_of(seq![c]) == Some(
            Seq::<Seq<char>>::empty(),
        ),
        c == '$' || c == '`' || c == '"' || c == '\\' ==> shell_words_of(seq!['"', '\\', c, '"'])
            == Some(seq![seq![c]]),
{
    reveal_with_fuel(words_from, 5);
    assert(seq![c].drop_first() =~= Seq::<char>::empty());
    let s = seq!['"', '\\', c, '"'];
    assert(s.drop_first() =~= seq!['\\', c, '"']);
    assert(seq!['\\', c, '"'].drop_first() =~= seq![c, '"']);
    assert(seq![c, '"'].drop_first() =~= seq!['"']);
    assert(seq!['"'].drop_first() =~= Seq::<char>::empty());
    assert(Seq::<char>::empty().push(c) =~= seq![c]);
    assert(Seq::<Seq<char>>::empty().push(seq![c]) =~= seq![seq![c]]);
}

/// A token count that is no whole k or M is shown to a tenth, the nearest.
pub proof fn law_a_token_count_is_shown_to_a_tenth(n: nat, unit: nat, name: Seq<char>) -> (shown: nat)
    requires
        n < 0x20_0000_0000_0000,
        unit == 0x400 && name == "k"@ && 0x400 <= n < 0x10_0000 || unit == 0x10_0000 && name == "M"@
            && 0x10_0000 <= n,
        n % unit != 0,
    ensures
        crate::plan::tokens_text(n) == dec(shown / 10) + "."@ + dec(shown % 10) + name,
        2 * (shown * unit) <= 20 * n + unit,
        2 * (shown * unit) + unit >= 20 * n,
{
    crate::util::law_small_numbers_are_doubles(n);
    law_a_quotient_is_rounded_to_the_nearest(n * 10, unit);
    half_even(n * 10, unit)
}

// ---------------------------------------------------------------- the report

/// A cell is filled up with spaces to its width, behind what stands at the left and before
/// what stands at the right.
pub proof fn law_a_cell_is_filled_up(s: Seq<char>, width: nat)
    ensures
        s.len() >= width ==> at_left(s, width) == s && at_right(s, width) == s,
        s.len() < width ==> at_left(s, width).len() == width && at_left(s, width).take(
            s.len() as int,
        ) == s,
        s.len() < width ==> at_right(s, width).len() == width && at_right(s, width).skip(
            width - s.len(),
        ) == s,
{
    if s.len() < width {
        assert(at_left(s, width).take(s.len() as int) =~= s);
        assert(at_right(s, width).skip(width - s.len()) =~= s);
    }
}

/// The report names every card and every root, and up to twenty models, each in a line of
/// its own.
pub proof fn law_the_report_names_what_there_is(f: Facts, i: int)
    ensures
        0 <= i < f.gpus@.len() ==> report_of(f).contains(
            "  ["@ + dec(f.gpus@[i].index as nat) + "] "@ + f.gpus@[i].name@ + "  "@ + bytes_text(
                f.gpus@[i].memory_used as nat,
            ) + " / "@ + bytes_text(f.gpus@[i].memory_total as nat) + "  "@ + f.gpus@[i].uuid@,
        ),
        0 <= i < f.roots@.len() ==> report_of(f).contains(
            "  "@ + f.roots@[i].0@ + (if crate::paths::same_place(f.roots@[i].0@, f.cache@) {
                "  (Hugging Face cache)"@
            } else {
                ""@
            }) + (if f.roots@[i].1 {
                ""@
            } else {
                "  (missing)"@
            }),
        ),
        0 <= i < f.models@.len() && i < 20 ==> report_of(f).contains(
            "    "@ + at_left(format_label(f.models@[i].format), 5) + " "@ + at_right(
                bytes_text(f.models@[i].size_bytes as nat),
                10,
            ) + "  "@ + f.models@[i].name@,
        ),
        model_lines(f.models@).len() == (if f.models@.len() <= 20 {
            f.models@.len()
        } else {
            20
        }),
{
    let a = files_section(f) + cli_section(f) + server_section(f);
    let b = root_lines(f.roots@, f.cache@);
    let c = library_section(f);
    let d = hub_section(f);
    let g = gpu_lines(f.gpus@);
    let h = bench_section(f);
    let k = serve_section(f);
    let all = report_of(f);
    assert(all =~= a + b + c + d + g + h + k);
    if 0 <= i < f.gpus@.len() {
        let at = a.len() + b.len() + c.len() + d.len() + i;
        assert(all[at as int] == g[i]);
    }
    if 0 <= i < f.roots@.len() {
        let at = a.len() + i;
        assert(all[at as int] == b[i]);
    }
    if 0 <= i < f.models@.len() && i < 20 {
        let at = a.len() + b.len() + 2 + i;
        assert(all[at as int] == c[2 + i]);
        assert(c[2 + i] == model_lines(f.models@)[i]);
    }
}

} // verus!

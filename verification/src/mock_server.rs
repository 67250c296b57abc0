//! What a validating mock server decides when it is shut down: where the pact file goes, and
//! the report of the requests that did not go as the pact says.

use vstd::prelude::*;
use crate::text::{push_char, push_str, chars_of, str_eq};
use crate::request::{HttpRequest, short_description, short_text};

verus! {

/// What happened to a request the mock server received or expected.
#[derive(Debug)]
pub enum MatchOutcome {
    /// The request matched an interaction
    RequestMatch,
    /// The request did not match: the request's text, and the description of each mismatch
    RequestMismatch(String, Vec<String>),
    /// A request that no interaction expected, with its debug text
    RequestNotFound(HttpRequest, String),
    /// A request that an interaction expected and that was not made, with its debug text
    MissingRequest(HttpRequest, String),
}

/// The width of the rule around the report: the terminal's width less two (nothing for a
/// terminal of at most two columns), or 78 when the width is not known.
pub open spec fn rule_width(cols: Option<u16>) -> nat {
    match cols {
        Some(c) => if c > 2 { (c - 2) as nat } else { 0 },
        None => 78,
    }
}

/// A text of `n` dashes.
pub open spec fn dashes(n: nat) -> Seq<char> {
    Seq::new(n, |i: int| '-')
}

/// The lines of a text, as `str::lines` gives them: the parts between line feeds, without a
/// last empty part, and each without a carriage return at its end.
pub open spec fn text_lines(t: Seq<char>) -> Seq<Seq<char>>
    decreases t.len(),
{
    if t.len() == 0 {
        Seq::empty()
    } else {
        let k = line_len(t);
        let line = t.subrange(0, k as int);
        let line = if line.len() > 0 && line.last() == '\r' { line.drop_last() } else { line };
        if k < t.len() {
            seq![line] + text_lines(t.subrange(k as int + 1, t.len() as int))
        } else {
            seq![line]
        }
    }
}

/// The number of characters before the first line feed (all of them when there is none).
pub open spec fn line_len(t: Seq<char>) -> nat
    decreases t.len(),
{
    if t.len() == 0 || t[0] == '\n' { 0 } else { 1 + line_len(t.drop_first()) }
}

/// Texts joined with line feeds between them.
pub open spec fn joined_lines(ls: Seq<Seq<char>>) -> Seq<char>
    decreases ls.len(),
{
    if ls.len() == 0 {
        Seq::empty()
    } else if ls.len() == 1 {
        ls[0]
    } else {
        joined_lines(ls.drop_last()) + seq!['\n'] + ls.last()
    }
}

/// The lines of a text, each indented by six spaces, joined with line feeds.
pub open spec fn indented(t: Seq<char>) -> Seq<char> {
    joined_lines(text_lines(t).map_values(|l: Seq<char>| "      "@ + l))
}

/// The part of the report for one outcome.
pub open spec fn outcome_text(o: MatchOutcome) -> Seq<char> {
    match o {
        MatchOutcome::RequestMatch => Seq::empty(),
        MatchOutcome::RequestMismatch(request, mismatches) =>
            "\n  - request "@ + request@ + ":\n\n"@ + mismatch_lines(mismatches@),
        MatchOutcome::RequestNotFound(request, debug) =>
            "\n  - received unexpected request "@ + short_text(request@) + ":\n\n"@ + indented(debug@) + seq!['\n'],
        MatchOutcome::MissingRequest(request, debug) =>
            "\n  - request "@ + short_text(request@) + " expected, but never occurred:\n\n"@ + indented(debug@) + seq!['\n'],
    }
}

/// One line for each mismatch: `    - ` and its description.
pub open spec fn mismatch_lines(ms: Seq<String>) -> Seq<char>
    decreases ms.len(),
{
    if ms.len() == 0 {
        Seq::empty()
    } else {
        mismatch_lines(ms.drop_last()) + "    - "@ + ms.last()@ + seq!['\n']
    }
}

/// The parts of the report for some outcomes, in order.
pub open spec fn outcomes_text(os: Seq<MatchOutcome>) -> Seq<char>
    decreases os.len(),
{
    if os.len() == 0 {
        Seq::empty()
    } else {
        outcomes_text(os.drop_last()) + outcome_text(os.last())
    }
}

/// The report of a mock server that failed verification: a rule, the server's description,
/// the part for each outcome, and a rule again.
pub open spec fn errors_report(cols: Option<u16>, description: Seq<char>, os: Seq<MatchOutcome>) -> Seq<char> {
    let rule = dashes(rule_width(cols));
    seq![' '] + rule + " \nMock server "@ + description + " failed verification:\n"@ + outcomes_text(os)
        + seq![' '] + rule + " \n"@
}

fn push_dashes(buf: &mut String, n: usize)
    ensures
        final(buf)@ == old(buf)@ + dashes(n as nat),
{
    let mut i: usize = 0;
    while i < n
        invariant
            i <= n,
            buf@ == old(buf)@ + dashes(i as nat),
        decreases n - i,
    {
        push_char(buf, '-');
        i = i + 1;
        assert(buf@ =~= old(buf)@ + dashes(i as nat));
    }
}

/// The width of the rule around the report; see [`rule_width`].
pub fn rule_width_of(cols: Option<u16>) -> (r: usize)
    ensures
        r == rule_width(cols),
{
    match cols {
        Some(c) => if c > 2 { (c - 2) as usize } else { 0 },
        None => 78,
    }
}

proof fn lemma_line_len(t: Seq<char>, k: int)
    requires
        0 <= k <= t.len(),
        forall|j: int| 0 <= j < k ==> t[j] != '\n',
        k < t.len() ==> t[k] == '\n',
    ensures
        line_len(t) == k,
    decreases k,
{
    if k > 0 {
        assert forall|j: int| 0 <= j < k - 1 implies t.drop_first()[j] != '\n' by {
            assert(t.drop_first()[j] == t[j + 1]);
        }
        if k < t.len() {
            assert(t.drop_first()[k - 1] == t[k]);
        }
        lemma_line_len(t.drop_first(), k - 1);
    }
}

/// Appends the lines of a text, each indented by six spaces, joined with line feeds; see
/// [`indented`].
fn push_indented(buf: &mut String, text: &str)
    ensures
        final(buf)@ == old(buf)@ + indented(text@),
{
    proof { reveal_strlit("      "); }
    let cs = chars_of(text);
    let n = cs.len();
    let mut i: usize = 0;
    let mut first = true;
    let ghost done: Seq<Seq<char>> = Seq::empty();
    assert(cs@.subrange(0, n as int) =~= text@);
    while i < n
        invariant
            n == cs.len(),
            cs@ == text@,
            i <= n,
            first == (done.len() == 0),
            text_lines(text@) == done + text_lines(cs@.subrange(i as int, n as int)),
            buf@ == old(buf)@ + joined_lines(done.map_values(|l: Seq<char>| "      "@ + l)),
        decreases n - i,
    {
        let ghost rest = cs@.subrange(i as int, n as int);
        let mut k = i;
        while k < n && cs[k] != '\n'
            invariant
                i <= k <= n,
                n == cs.len(),
                forall|j: int| i <= j < k ==> cs@[j] != '\n',
            decreases n - k,
        {
            k = k + 1;
        }
        proof {
            assert forall|j: int| 0 <= j < k - i implies rest[j] != '\n' by {
                assert(rest[j] == cs@[i + j]);
            }
            lemma_line_len(rest, k - i);
        }
        let end = if k > i && cs[k - 1] == '\r' { k - 1 } else { k };
        let ghost line = cs@.subrange(i as int, end as int);
        proof {
            assert(rest.subrange(0, (k - i) as int) =~= cs@.subrange(i as int, k as int));
            if k > i && cs@[k - 1] == '\r' {
                assert(cs@.subrange(i as int, k as int).drop_last() =~= line);
            }
        }
        if !first {
            push_char(buf, '\n');
        }
        push_str(buf, "      ");
        let mut j = i;
        while j < end
            invariant
                i <= j <= end <= n,
                n == cs.len(),
                buf@ == old(buf)@ + joined_lines(done.map_values(|l: Seq<char>| "      "@ + l))
                    + (if first { Seq::<char>::empty() } else { seq!['\n'] }) + "      "@ + cs@.subrange(i as int, j as int),
            decreases end - j,
        {
            push_char(buf, cs[j]);
            j = j + 1;
            assert(cs@.subrange(i as int, j as int) =~= cs@.subrange(i as int, j - 1).push(cs@[j - 1]));
        }
        proof {
            let before = done.map_values(|l: Seq<char>| "      "@ + l);
            let after = done.push(line).map_values(|l: Seq<char>| "      "@ + l);
            assert(after =~= before.push("      "@ + line));
            if done.len() == 0 {
                assert(after =~= seq!["      "@ + line]);
            } else {
                assert(after.drop_last() =~= before);
            }
            if k < n {
                assert(rest.subrange((k - i) as int + 1, rest.len() as int) =~= cs@.subrange(k + 1, n as int));
                assert(text_lines(rest) == seq![line] + text_lines(cs@.subrange(k + 1, n as int)));
                assert(done + text_lines(rest) =~= done.push(line) + text_lines(cs@.subrange(k + 1, n as int)));
            } else {
                assert(text_lines(rest) == seq![line]);
                assert(cs@.subrange(n as int, n as int) =~= Seq::<char>::empty());
                assert(done + text_lines(rest) =~= done.push(line) + text_lines(cs@.subrange(n as int, n as int)));
            }
            done = done.push(line);
        }
        first = false;
        i = if k < n { k + 1 } else { n };
    }
    proof {
        assert(cs@.subrange(n as int, n as int) =~= Seq::<char>::empty());
        assert(done + Seq::<Seq<char>>::empty() =~= done);
    }
}

/// Appends the part of the report for one outcome; see [`outcome_text`].
fn push_outcome(buf: &mut String, o: &MatchOutcome)
    ensures
        final(buf)@ == old(buf)@ + outcome_text(*o),
{
    proof {
        reveal_strlit("\n  - request ");
        reveal_strlit(":\n\n");
        reveal_strlit("    - ");
        reveal_strlit("\n  - received unexpected request ");
        reveal_strlit(" expected, but never occurred:\n\n");
    }
    match o {
        MatchOutcome::RequestMatch => {
            assert(buf@ =~= old(buf)@ + outcome_text(*o));
        },
        MatchOutcome::RequestMismatch(request, mismatches) => {
            push_str(buf, "\n  - request ");
            push_str(buf, request.as_str());
            push_str(buf, ":\n\n");
            let ghost start = buf@;
            let mut i: usize = 0;
            while i < mismatches.len()
                invariant
                    i <= mismatches.len(),
                    buf@ == start + mismatch_lines(mismatches@.subrange(0, i as int)),
                decreases mismatches.len() - i,
            {
                push_str(buf, "    - ");
                push_str(buf, mismatches[i].as_str());
                push_char(buf, '\n');
                proof {
                    let sub = mismatches@.subrange(0, i + 1);
                    assert(sub.drop_last() =~= mismatches@.subrange(0, i as int));
                }
                i = i + 1;
                assert(buf@ =~= start + mismatch_lines(mismatches@.subrange(0, i as int)));
            }
            assert(mismatches@.subrange(0, mismatches.len() as int) =~= mismatches@);
            assert(buf@ =~= old(buf)@ + outcome_text(*o));
        },
        MatchOutcome::RequestNotFound(request, debug) => {
            push_str(buf, "\n  - received unexpected request ");
            let s = short_description(request);
            push_str(buf, s.as_str());
            push_str(buf, ":\n\n");
            push_indented(buf, debug.as_str());
            push_char(buf, '\n');
            assert(buf@ =~= old(buf)@ + outcome_text(*o));
        },
        MatchOutcome::MissingRequest(request, debug) => {
            push_str(buf, "\n  - request ");
            let s = short_description(request);
            push_str(buf, s.as_str());
            push_str(buf, " expected, but never occurred:\n\n");
            push_indented(buf, debug.as_str());
            push_char(buf, '\n');
            assert(buf@ =~= old(buf)@ + outcome_text(*o));
        },
    }
}

/// The report of a mock server that failed verification; see [`errors_report`]. The
/// terminal's width, when known, is given in columns.
pub fn display_errors(cols: Option<u16>, description: &str, mismatches: &Vec<MatchOutcome>) -> (r: String)
    ensures
        r@ == errors_report(cols, description@, mismatches@),
{
    proof {
        reveal_strlit(" \nMock server ");
        reveal_strlit(" failed verification:\n");
        reveal_strlit(" \n");
    }
    let width = rule_width_of(cols);
    let mut msg = String::new();
    push_char(&mut msg, ' ');
    push_dashes(&mut msg, width);
    push_str(&mut msg, " \nMock server ");
    push_str(&mut msg, description);
    push_str(&mut msg, " failed verification:\n");
    let ghost start = msg@;
    let mut i: usize = 0;
    while i < mismatches.len()
        invariant
            i <= mismatches.len(),
            msg@ == start + outcomes_text(mismatches@.subrange(0, i as int)),
        decreases mismatches.len() - i,
    {
        push_outcome(&mut msg, &mismatches[i]);
        proof {
            let sub = mismatches@.subrange(0, i + 1);
            assert(sub.drop_last() =~= mismatches@.subrange(0, i as int));
        }
        i = i + 1;
        assert(msg@ =~= start + outcomes_text(mismatches@.subrange(0, i as int)));
    }
    assert(mismatches@.subrange(0, mismatches.len() as int) =~= mismatches@);
    push_char(&mut msg, ' ');
    push_dashes(&mut msg, width);
    push_str(&mut msg, " \n");
    assert(msg@ =~= errors_report(cols, description@, mismatches@));
    msg
}

/// The directory pact files are written to: the one given (unless it is empty), else the
/// one in `PACT_OUTPUT_DIR`, else `target/pacts`.
pub fn pact_output_dir(output_dir: &Option<String>, env_dir: &Option<String>) -> (r: String)
    ensures
        r@ == match output_dir {
            Some(d) if d@.len() > 0 => d@,
            _ => match env_dir {
                Some(e) => e@,
                None => "target/pacts"@,
            },
        },
{
    match output_dir {
        Some(d) if !d.as_str().is_empty() => d.clone(),
        _ => match env_dir {
            Some(e) => e.clone(),
            None => String::from_str("target/pacts"),
        },
    }
}

/// Whether pact files are overwritten: as `PACT_OVERWRITE` says (`true` for yes, any other
/// value for no) when it is set, else as the server was set up.
pub fn pact_overwrite(env_overwrite: &Option<String>, overwrite: bool) -> (r: bool)
    ensures
        r == match env_overwrite {
            Some(v) => v@ == "true"@,
            None => overwrite,
        },
{
    match env_overwrite {
        Some(v) => str_eq(v.as_str(), "true"),
        None => overwrite,
    }
}

/// The description of a mock server: the consumer's name and the provider's, with a slash
/// between them.
pub fn mock_server_description(consumer: &str, provider: &str) -> (r: String)
    ensures
        r@ == consumer@ + seq!['/'] + provider@,
{
    let mut s = String::from_str(consumer);
    push_char(&mut s, '/');
    push_str(&mut s, provider);
    s
}

/// What a mock server does once it is shut down.
#[derive(Debug)]
pub enum ShutdownAction {
    /// Every request went as the pact says: write the pact file to the directory, replacing
    /// one that is there when `overwrite` is set
    WritePact { output_dir: String, overwrite: bool },
    /// Some requests did not: fail with this report, and write nothing
    Fail(String),
}

/// What a mock server does once it is shut down: with no mismatches, it writes the pact
/// where [`pact_output_dir`] and [`pact_overwrite`] say; otherwise it fails with the report
/// of [`display_errors`].
pub fn shutdown_action(cols: Option<u16>, description: &str, mismatches: &Vec<MatchOutcome>, output_dir: &Option<String>,
    env_dir: &Option<String>, env_overwrite: &Option<String>, overwrite: bool) -> (r: ShutdownAction)
    ensures
        mismatches@.len() == 0 ==> (r matches ShutdownAction::WritePact { output_dir: d, overwrite: o }
            && d@ == (match output_dir {
                Some(d) if d@.len() > 0 => d@,
                _ => match env_dir {
                    Some(e) => e@,
                    None => "target/pacts"@,
                },
            })
            && o == (match env_overwrite {
                Some(v) => v@ == "true"@,
                None => overwrite,
            })),
        mismatches@.len() > 0 ==> (r matches ShutdownAction::Fail(m) && m@ == errors_report(cols, description@, mismatches@)),
{
    if mismatches.len() == 0 {
        ShutdownAction::WritePact { output_dir: pact_output_dir(output_dir, env_dir), overwrite: pact_overwrite(env_overwrite, overwrite) }
    } else {
        ShutdownAction::Fail(display_errors(cols, description, mismatches))
    }
}

/// The outcome of writing the pact file: the error of the write, if any, as
/// `error writing pact: <error>`.
pub fn pact_write_outcome(written: Result<(), String>) -> (r: Result<(), String>)
    ensures
        match written {
            Ok(_) => r is Ok,
            Err(e) => r matches Err(m) && m@ == "error writing pact: "@ + e@,
        },
{
    match written {
        Ok(()) => Ok(()),
        Err(e) => {
            let mut m = String::from_str("error writing pact: ");
            push_str(&mut m, e.as_str());
            proof { reveal_strlit("error writing pact: "); }
            Err(m)
        },
    }
}

} // verus!

//! The text protocols between the command line and the daemon: the event queue
//! file, the control socket's stop command, and the daemon's command line.
use vstd::prelude::*;

use crate::text::{
    chars_of, chars_eq, copy_range, lemma_trim_idempotent, string_from_chars, string_views, trim,
    trim_range, trimmed_chars,
};

verus! {

/// The number of characters before the first line break of `s` (all of them when
/// there is none).
pub open spec fn line_len(s: Seq<char>) -> nat
    decreases s.len(),
{
    if s.len() == 0 || s[0] == '\n' {
        0
    } else {
        1 + line_len(s.drop_first())
    }
}

/// The events in a queue text: its lines (`str::lines`), each without surrounding
/// whitespace, leaving out the blank ones.
pub open spec fn spec_queued_lines(s: Seq<char>) -> Seq<Seq<char>>
    decreases s.len(),
{
    if s.len() == 0 {
        seq![]
    } else {
        let k = line_len(s);
        let line = trim(s.take(k as int));
        let rest = if k < s.len() {
            s.skip(k + 1 as int)
        } else {
            seq![]
        };
        (if line.len() > 0 {
            seq![line]
        } else {
            seq![]
        }) + spec_queued_lines(rest)
    }
}

/// The line that appending `input` adds to the queue: the input without surrounding
/// whitespace, then a line break.
pub open spec fn spec_queue_line(input: Seq<char>) -> Seq<char> {
    trim(input).push('\n')
}

/// A text without line breaks.
pub open spec fn single_line(s: Seq<char>) -> bool {
    forall|i: int| 0 <= i < s.len() ==> #[trigger] s[i] != '\n'
}

/// A queue text that ends at a line boundary.
pub open spec fn ends_at_line_boundary(q: Seq<char>) -> bool {
    q.len() == 0 || q.last() == '\n'
}

/// The stop command: one line that reads `stop`, surrounding whitespace aside.
pub open spec fn is_stop(command: Seq<char>) -> bool {
    trim(command) == "stop"@
}

/// The reply to an accepted stop command.
pub open spec fn ok_reply() -> Seq<char> {
    "{\"ok\":true}\n"@
}

/// The reply to any other command.
pub open spec fn unknown_reply() -> Seq<char> {
    "{\"ok\":false,\"error\":\"unknown command\"}\n"@
}

/// The arguments that start the daemon, with the configuration file when one is
/// given.
pub open spec fn spec_daemon_args(config_path: Option<Seq<char>>) -> Seq<Seq<char>> {
    match config_path {
        Some(p) => seq!["daemon"@, "--config"@, p],
        None => seq!["daemon"@],
    }
}

pub proof fn lemma_line_len(s: Seq<char>, k: int)
    requires
        0 <= k <= s.len(),
        forall|j: int| 0 <= j < k ==> #[trigger] s[j] != '\n',
        k == s.len() || s[k] == '\n',
    ensures
        line_len(s) == k,
    decreases k,
{
    if k > 0 {
        let t = s.drop_first();
        assert forall|j: int| 0 <= j < k - 1 implies #[trigger] t[j] != '\n' by {
            assert(t[j] == s[j + 1]);
        }
        if k < s.len() {
            assert(t[k - 1] == s[k]);
        }
        lemma_line_len(t, k - 1);
    }
}

proof fn lemma_line_len_bound(s: Seq<char>)
    ensures
        line_len(s) <= s.len(),
        line_len(s) < s.len() ==> s[line_len(s) as int] == '\n',
        forall|j: int| 0 <= j < line_len(s) ==> #[trigger] s[j] != '\n',
    decreases s.len(),
{
    if s.len() > 0 && s[0] != '\n' {
        let t = s.drop_first();
        lemma_line_len_bound(t);
        assert forall|j: int| 0 <= j < line_len(s) implies #[trigger] s[j] != '\n' by {
            if j > 0 {
                assert(s[j] == t[j - 1]);
            }
        }
        if line_len(s) < s.len() {
            assert(s[line_len(s) as int] == t[line_len(t) as int]);
        }
    }
}

/// Reading the lines of two queue texts one after the other is reading the lines
/// of each, when the first ends at a line boundary.
pub proof fn lemma_queued_lines_concat(a: Seq<char>, b: Seq<char>)
    requires
        ends_at_line_boundary(a),
    ensures
        spec_queued_lines(a + b) == spec_queued_lines(a) + spec_queued_lines(b),
    decreases a.len(),
{
    if a.len() == 0 {
        assert(a + b =~= b);
        assert(spec_queued_lines(a) =~= Seq::<Seq<char>>::empty());
        assert(Seq::<Seq<char>>::empty() + spec_queued_lines(b) =~= spec_queued_lines(b));
    } else {
        let s = a + b;
        lemma_line_len_bound(a);
        let k = line_len(a) as int;
        if k == a.len() {
            assert(a[a.len() - 1] != '\n');
        }
        assert(k < a.len());
        assert forall|j: int| 0 <= j < k implies #[trigger] s[j] != '\n' by {
            assert(s[j] == a[j]);
        }
        assert(s[k] == a[k]);
        lemma_line_len(s, k);
        assert(s.take(k) =~= a.take(k));
        let ra = a.skip(k + 1);
        assert(s.skip(k + 1) =~= ra + b);
        assert(ends_at_line_boundary(ra)) by {
            if ra.len() > 0 {
                assert(ra.last() == a.last());
            }
        }
        lemma_queued_lines_concat(ra, b);
        let line = trim(a.take(k));
        let head: Seq<Seq<char>> = if line.len() > 0 {
            seq![line]
        } else {
            seq![]
        };
        assert(spec_queued_lines(s) == head + spec_queued_lines(ra + b));
        assert(spec_queued_lines(a) == head + spec_queued_lines(ra));
        assert(head + (spec_queued_lines(ra) + spec_queued_lines(b)) =~= (head
            + spec_queued_lines(ra)) + spec_queued_lines(b));
    }
}

/// A final line break adds no event.
pub proof fn lemma_queued_lines_final_newline(s: Seq<char>)
    ensures
        spec_queued_lines(s.push('\n')) == spec_queued_lines(s),
    decreases s.len(),
{
    let t = s.push('\n');
    lemma_line_len_bound(s);
    let k = line_len(s) as int;
    assert forall|j: int| 0 <= j < k implies #[trigger] t[j] != '\n' by {
        assert(t[j] == s[j]);
    }
    assert(t[k] == '\n');
    lemma_line_len(t, k);
    assert(t.take(k) =~= s.take(k));
    if s.len() == 0 {
        assert(t.skip(1) =~= Seq::<char>::empty());
        assert(spec_queued_lines(Seq::<char>::empty()) =~= Seq::<Seq<char>>::empty());
        assert(trim(t.take(0)).len() == 0) by {
            assert(t.take(0) =~= Seq::<char>::empty());
        }
        assert(spec_queued_lines(t) =~= Seq::<Seq<char>>::empty());
    } else if k < s.len() {
        let rest = s.skip(k + 1);
        assert(t.skip(k + 1) =~= rest.push('\n'));
        lemma_queued_lines_final_newline(rest);
    } else {
        assert(t.skip(k + 1) =~= Seq::<char>::empty());
    }
}

/// Appending `input` to a queue that ends at a line boundary adds the events of the
/// trimmed input after the queue's own events, and leaves the queue at a line
/// boundary again.
pub proof fn lemma_append_then_drain(q: Seq<char>, input: Seq<char>)
    requires
        ends_at_line_boundary(q),
    ensures
        spec_queued_lines(q + spec_queue_line(input)) == spec_queued_lines(q) + spec_queued_lines(
            trim(input),
        ),
        ends_at_line_boundary(q + spec_queue_line(input)),
{
    lemma_queued_lines_concat(q, spec_queue_line(input));
    lemma_queued_lines_final_newline(trim(input));
}

/// The queue text after the inputs `inputs` were appended, in order, to an empty
/// queue.
pub open spec fn queue_after(inputs: Seq<Seq<char>>) -> Seq<char>
    decreases inputs.len(),
{
    if inputs.len() == 0 {
        seq![]
    } else {
        queue_after(inputs.drop_last()) + spec_queue_line(inputs.last())
    }
}

/// The events of the inputs `inputs`, in order: the events of each trimmed input.
pub open spec fn events_of(inputs: Seq<Seq<char>>) -> Seq<Seq<char>>
    decreases inputs.len(),
{
    if inputs.len() == 0 {
        seq![]
    } else {
        events_of(inputs.drop_last()) + spec_queued_lines(trim(inputs.last()))
    }
}

/// Draining a queue gives back the events of everything appended to it, in the
/// order they were appended.
pub proof fn lemma_drain_returns_appended_events(inputs: Seq<Seq<char>>)
    ensures
        spec_queued_lines(queue_after(inputs)) == events_of(inputs),
        ends_at_line_boundary(queue_after(inputs)),
    decreases inputs.len(),
{
    if inputs.len() == 0 {
        assert(spec_queued_lines(Seq::<char>::empty()) =~= Seq::<Seq<char>>::empty());
    } else {
        lemma_drain_returns_appended_events(inputs.drop_last());
        lemma_append_then_drain(queue_after(inputs.drop_last()), inputs.last());
    }
}

/// An appended event without line breaks comes back from the queue as the last
/// event, without surrounding whitespace; a blank one adds nothing.
pub proof fn lemma_append_single_line_then_drain(q: Seq<char>, input: Seq<char>)
    requires
        ends_at_line_boundary(q),
        single_line(input),
    ensures
        spec_queued_lines(q + spec_queue_line(input)) == if trim(input).len() > 0 {
            spec_queued_lines(q).push(trim(input))
        } else {
            spec_queued_lines(q)
        },
{
    let l = spec_queue_line(input);
    lemma_queued_lines_concat(q, l);
    let t = trim(input);
    lemma_trim_within(input);
    assert forall|j: int| 0 <= j < t.len() implies #[trigger] l[j] != '\n' by {
        assert(l[j] == t[j]);
    }
    lemma_line_len(l, t.len() as int);
    assert(l.take(t.len() as int) =~= t);
    lemma_trim_idempotent(input);
    assert(l.skip(t.len() + 1 as int) =~= Seq::<char>::empty());
    assert(spec_queued_lines(Seq::<char>::empty()) =~= Seq::<Seq<char>>::empty());
    if t.len() > 0 {
        assert(spec_queued_lines(l) =~= seq![t]);
        assert(spec_queued_lines(q) + seq![t] =~= spec_queued_lines(q).push(t));
    } else {
        assert(spec_queued_lines(l) =~= Seq::<Seq<char>>::empty());
        assert(spec_queued_lines(q) + Seq::<Seq<char>>::empty() =~= spec_queued_lines(q));
    }
}

/// Every character of the trim of `s` is a character of `s`, so a single line
/// stays a single line.
proof fn lemma_trim_within(s: Seq<char>)
    requires
        single_line(s),
    ensures
        single_line(trim(s)),
{
    crate::text::lemma_leading_ws_bound(s);
    let t0 = crate::text::trim_start(s);
    crate::text::lemma_trailing_ws_bound(t0);
    assert forall|i: int| 0 <= i < trim(s).len() implies #[trigger] trim(s)[i] != '\n' by {
        assert(trim(s)[i] == s[i + crate::text::leading_ws(s)]);
    }
}

/// The line that appending `input` adds to the event queue.
pub fn queue_line(input: &str) -> (line: String)
    ensures
        line@ == spec_queue_line(input@),
{
    let mut v = trimmed_chars(input);
    v.push('\n');
    string_from_chars(&v)
}

/// The events in the text of the event queue, in order.
pub fn queued_lines(input: &str) -> (lines: Vec<String>)
    ensures
        string_views(lines@) == spec_queued_lines(input@),
{
    let v = chars_of(input);
    let mut out: Vec<String> = Vec::new();
    let mut pos: usize = 0;
    assert(v@.skip(0) =~= v@);
    while pos < v.len()
        invariant
            pos <= v.len(),
            v@ == input@,
            string_views(out@) + spec_queued_lines(v@.skip(pos as int)) == spec_queued_lines(
                v@,
            ),
        decreases v.len() - pos,
    {
        let mut end = pos;
        while end < v.len() && v[end] != '\n'
            invariant
                pos <= end <= v.len(),
                forall|j: int| pos <= j < end ==> #[trigger] v@[j] != '\n',
            decreases v.len() - end,
        {
            end += 1;
        }
        let ghost s = v@.skip(pos as int);
        proof {
            assert forall|j: int| 0 <= j < end - pos implies #[trigger] s[j] != '\n' by {
                assert(s[j] == v@[pos + j]);
            }
            if end < v.len() {
                assert(s[end - pos] == v@[end as int]);
            }
            lemma_line_len(s, end - pos);
            assert(s.take(end - pos) =~= v@.subrange(pos as int, end as int));
        }
        let line = copy_range(&v, pos, end);
        let (a, b) = trim_range(&line);
        let ghost head: Seq<Seq<char>> = if a < b {
            seq![trim(line@)]
        } else {
            seq![]
        };
        let ghost before = string_views(out@);
        if a < b {
            let text = string_from_chars(&copy_range(&line, a, b));
            out.push(text);
            assert(string_views(out@) =~= before + head);
        } else {
            assert(string_views(out@) =~= before + head);
        }
        let next = if end < v.len() {
            end + 1
        } else {
            end
        };
        proof {
            let rest = if end - pos < s.len() {
                s.skip(end - pos + 1)
            } else {
                Seq::<char>::empty()
            };
            assert(rest =~= v@.skip(next as int));
            assert(spec_queued_lines(s) == head + spec_queued_lines(rest));
            assert(before + (head + spec_queued_lines(rest)) =~= (before + head)
                + spec_queued_lines(rest));
        }
        pos = next;
    }
    assert(v@.skip(v.len() as int) =~= Seq::<char>::empty());
    assert(string_views(out@) + Seq::<Seq<char>>::empty() =~= string_views(out@));
    out
}

/// Combines the result of a queue operation done under the queue lock with the
/// result of releasing the lock: the operation's error comes first.
pub fn finish_queue_operation<T, E>(result: Result<T, E>, unlock_result: Result<(), E>) -> (r:
    Result<T, E>)
    ensures
        match result {
            Ok(v) => match unlock_result {
                Ok(_) => r == Ok::<T, E>(v),
                Err(e) => r == Err::<T, E>(e),
            },
            Err(e) => r == Err::<T, E>(e),
        },
{
    match result {
        Ok(value) => match unlock_result {
            Ok(_) => Ok(value),
            Err(e) => Err(e),
        },
        Err(error) => Err(error),
    }
}

/// Whether a control command asks the daemon to stop.
pub fn is_stop_command(command: &str) -> (stop: bool)
    ensures
        stop == is_stop(command@),
{
    let t = trimmed_chars(command);
    let word = chars_of("stop");
    chars_eq(&t, &word)
}

/// How the daemon answers a control command: whether to stop, and the reply line.
pub fn control_reply(command: &str) -> (r: (bool, String))
    ensures
        r.0 == is_stop(command@),
        r.1@ == if r.0 {
            ok_reply()
        } else {
            unknown_reply()
        },
{
    if is_stop_command(command) {
        (true, "{\"ok\":true}\n".to_owned())
    } else {
        (false, "{\"ok\":false,\"error\":\"unknown command\"}\n".to_owned())
    }
}

/// What the sender of a stop command makes of the daemon's reply: success for the
/// accepted reply, else the reply itself as the error, without surrounding
/// whitespace.
pub fn stop_response_result(response: &str) -> (r: Result<(), String>)
    ensures
        trim(response@) == "{\"ok\":true}"@ ==> r is Ok,
        trim(response@) != "{\"ok\":true}"@ ==> (r matches Err(e) && e@ == trim(response@)),
{
    let t = trimmed_chars(response);
    let ok = chars_of("{\"ok\":true}");
    if chars_eq(&t, &ok) {
        Ok(())
    } else {
        Err(string_from_chars(&t))
    }
}

/// The daemon accepts the stop command that `send_stop` sends, and `send_stop`
/// counts the daemon's reply to it as success; the reply to any other command
/// counts as failure.
pub proof fn lemma_stop_round_trip()
    ensures
        is_stop("stop\n"@),
        trim(ok_reply()) == "{\"ok\":true}"@,
        trim(unknown_reply()) != "{\"ok\":true}"@,
{
    reveal_strlit("{\"ok\":true}\n");
    reveal_strlit("{\"ok\":true}");
    reveal_strlit("{\"ok\":false,\"error\":\"unknown command\"}\n");
    reveal_strlit("stop\n");
    reveal_strlit("stop");
    lemma_trim_drops_final_newline(ok_reply());
    assert(ok_reply().drop_last() =~= "{\"ok\":true}"@);
    lemma_trim_drops_final_newline(unknown_reply());
    let u = unknown_reply().drop_last();
    assert(u.len() != ("{\"ok\":true}"@).len());
    lemma_trim_drops_final_newline("stop\n"@);
    assert(("stop\n"@).drop_last() =~= "stop"@);
}

/// A text that starts and ends, before a final line break, with non-whitespace
/// trims to itself without that line break.
proof fn lemma_trim_drops_final_newline(s: Seq<char>)
    requires
        s.len() >= 2,
        s.last() == '\n',
        !crate::text::spec_is_whitespace(s[0]),
        !crate::text::spec_is_whitespace(s[s.len() - 2]),
    ensures
        trim(s) == s.drop_last(),
{
    crate::text::lemma_leading_ws(s, 0);
    assert(crate::text::trim_start(s) =~= s);
    assert forall|i: int| s.len() - 1 <= i < s.len() implies crate::text::spec_is_whitespace(
        #[trigger] s[i],
    ) by {}
    crate::text::lemma_trailing_ws(s, 1);
    assert(s.take(s.len() - 1) =~= s.drop_last());
}

/// The command-line arguments that start the daemon.
pub fn daemon_args(config_path: Option<&str>) -> (args: Vec<String>)
    ensures
        string_views(args@) == spec_daemon_args(
            match config_path {
                Some(p) => Some(p@),
                None => None,
            },
        ),
{
    let mut args: Vec<String> = Vec::new();
    args.push("daemon".to_owned());
    if let Some(p) = config_path {
        args.push("--config".to_owned());
        args.push(p.to_owned());
        assert(string_views(args@) =~= spec_daemon_args(Some(p@)));
    } else {
        assert(string_views(args@) =~= spec_daemon_args(None));
    }
    args
}

} // verus!

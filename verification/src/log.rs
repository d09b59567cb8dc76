//! The messages of the console.
use vstd::prelude::*;
use crate::audio::text_views;

verus! {

/// A message with the time at which it was logged.
pub open spec fn line_text(time: Seq<char>, msg: Seq<char>) -> Seq<char> {
    "["@ + time + "] "@ + msg
}

/// Appends a message with the time at which it was logged.
pub fn log_msg(log: &mut Vec<String>, time: &str, msg: &str)
    ensures
        text_views(final(log)@) == text_views(old(log)@).push(line_text(time@, msg@)),
{
    let mut line = String::new();
    line.append("[");
    line.append(time);
    line.append("] ");
    line.append(msg);
    assert(line@ =~= line_text(time@, msg@));
    log.push(line);
    assert(text_views(log@) =~= text_views(old(log)@).push(line_text(time@, msg@)));
}

/// What messages add to a console that is empty or not: each on a line of its own.
pub open spec fn console_text(empty: bool, messages: Seq<Seq<char>>) -> Seq<char>
    decreases messages.len(),
{
    if messages.len() == 0 {
        Seq::empty()
    } else {
        let before = console_text(empty, messages.drop_last());
        if empty && before.len() == 0 {
            before + messages.last()
        } else {
            before + "\n"@ + messages.last()
        }
    }
}

/// Takes all messages and gives what they add to the console.
pub fn drain_log(log: &mut Vec<String>, console_empty: bool) -> (r: String)
    ensures
        final(log)@.len() == 0,
        r@ == console_text(console_empty, text_views(old(log)@)),
{
    let ghost views = text_views(log@);
    let n = log.len();
    let mut out = String::new();
    for i in 0..n
        invariant
            n == log@.len(),
            *log == *old(log),
            views == text_views(log@),
            out@ == console_text(console_empty, views.take(i as int)),
    {
        proof {
            assert(views.take(i + 1).drop_last() =~= views.take(i as int));
            assert(views.take(i + 1).last() == log@[i as int]@);
        }
        if !(console_empty && out.as_str().is_empty()) {
            out.append("\n");
        }
        out.append(log[i].as_str());
    }
    assert(views.take(n as int) =~= views);
    log.clear();
    out
}

/// Draining twice adds what draining once adds: between two drains nothing is lost or repeated.
pub proof fn drains_add_up(empty: bool, a: Seq<Seq<char>>, b: Seq<Seq<char>>)
    ensures
        console_text(empty, a + b) == console_text(empty, a) + console_text(
            empty && console_text(empty, a).len() == 0,
            b,
        ),
    decreases b.len(),
{
    let first = console_text(empty, a);
    let later = empty && first.len() == 0;
    if b.len() == 0 {
        assert(a + b =~= a);
        assert(first + console_text(later, b) =~= first);
    } else {
        drains_add_up(empty, a, b.drop_last());
        assert((a + b).drop_last() =~= a + b.drop_last());
        let before = console_text(empty, a + b.drop_last());
        let part = console_text(later, b.drop_last());
        assert(before == first + part);
        reveal_strlit("\n");
        assert(console_text(empty, a + b) =~= first + console_text(later, b));
    }
}

/// The first message of an empty console stands alone, any other on a new line: with what draining
/// twice adds, this is all that a console shows.
pub proof fn a_message_takes_a_line(empty: bool, message: Seq<char>)
    ensures
        console_text(empty, Seq::empty()).len() == 0,
        console_text(empty, seq![message]) == if empty {
            message
        } else {
            seq!['\n'] + message
        },
{
    reveal_strlit("\n");
    assert("\n"@ =~= seq!['\n']);
    reveal_with_fuel(console_text, 2);
    assert(seq![message].drop_last() =~= Seq::<Seq<char>>::empty());
    assert(console_text(empty, seq![message]) =~= if empty {
        message
    } else {
        seq!['\n'] + message
    });
}

/// A line of the console is the time in brackets, a space and the message.
pub proof fn lines_carry_time_and_message(time: Seq<char>, msg: Seq<char>)
    ensures
        ({
            let line = line_text(time, msg);
            let n = time.len() as int;
            &&& line.len() == time.len() + msg.len() + 3
            &&& line[0] == '['
            &&& line.subrange(1, 1 + n) == time
            &&& line[1 + n] == ']'
            &&& line[2 + n] == ' '
            &&& line.skip(3 + n) == msg
        }),
{
    reveal_strlit("[");
    reveal_strlit("] ");
    let line = line_text(time, msg);
    let n = time.len() as int;
    assert(line.subrange(1, 1 + n) =~= time);
    assert(line.skip(3 + n) =~= msg);
}

} // verus!

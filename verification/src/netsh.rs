//! Arguments and answers of `netsh`.
//!
//! The DNS feature and the MTU feature run `netsh`, one process per command.
//! An adapter name stands between double quotes; a name that holds a quote
//! itself is refused, so no argument can be smuggled into a second command.

use vstd::prelude::*;

use crate::ops::text_result_view;
use crate::text;
use crate::text::{trimmed, utf8_lossy};

verus! {

/// The argument `tag="value"`, refused when the value is empty or holds a
/// double quote.
pub open spec fn quoted_arg(tag: Seq<char>, value: Seq<char>) -> Result<Seq<char>, Seq<char>> {
    if value.len() == 0 {
        Err("empty "@ + tag + " value"@)
    } else if value.contains('"') {
        Err(tag + " value contains a quote: "@ + value)
    } else {
        Ok(tag + "=\""@ + value + "\""@)
    }
}

fn quoted(tag: &str, value: &str) -> (arg: Result<String, String>)
    ensures
        text_result_view(arg) == quoted_arg(tag@, value@),
{
    if value.unicode_len() == 0 {
        return Err("empty ".to_owned().concat(tag).concat(" value"));
    }
    if text::contains_char(value, '"') {
        return Err(tag.to_owned().concat(" value contains a quote: ").concat(value));
    }
    Ok(tag.to_owned().concat("=\"").concat(value).concat("\""))
}

/// Builds the `name="..."` argument that names an interface.
pub fn name_arg(friendly: &str) -> (arg: Result<String, String>)
    ensures
        text_result_view(arg) == quoted_arg("name"@, friendly@),
{
    quoted("name", friendly)
}

/// Builds the `interface="..."` argument used by the `netsh dns` context.
pub fn interface_arg(friendly: &str) -> (arg: Result<String, String>)
    ensures
        text_result_view(arg) == quoted_arg("interface"@, friendly@),
{
    quoted("interface", friendly)
}

/// What a `netsh` process that has ended says: its output on success, else one
/// line with what it wrote to the error stream.
pub open spec fn run_outcome(success: bool, stdout: Seq<u8>, stderr: Seq<u8>) -> Result<
    Seq<char>,
    Seq<char>,
> {
    if success {
        Ok(utf8_lossy(stdout))
    } else {
        complaint(trimmed(utf8_lossy(stderr)))
    }
}

/// A text with every line break replaced by a space. A carriage return and the
/// line feed behind it are one line break.
pub open spec fn one_line(s: Seq<char>) -> Seq<char>
    decreases s.len(),
{
    if s.len() == 0 {
        Seq::empty()
    } else {
        let rest = one_line(s.drop_last());
        let c = s.last();
        if c == '\n' && s.len() > 1 && s[s.len() - 2] == '\r' {
            rest
        } else if c == '\n' || c == '\r' {
            rest.push(' ')
        } else {
            rest.push(c)
        }
    }
}

/// The error of a failed process that wrote `stderr`, in one line.
pub open spec fn complaint(stderr: Seq<char>) -> Result<Seq<char>, Seq<char>> {
    if stderr.len() == 0 {
        Err("netsh exited with an error"@)
    } else {
        Err("netsh: "@ + one_line(stderr))
    }
}

/// A text with every line break replaced by a space.
pub fn fold(text: &str) -> (line: String)
    ensures
        line@ == one_line(text@),
{
    let v = text::chars(text);
    let mut line = String::new();
    let mut i: usize = 0;
    assert(v@.take(0) =~= Seq::<char>::empty());
    assert(line@ =~= one_line(v@.take(0)));
    while i < v.len()
        invariant
            i <= v@.len(),
            v@ == text@,
            line@ == one_line(v@.take(i as int)),
        decreases v@.len() - i,
    {
        proof {
            let part = v@.take(i + 1);
            assert(part.drop_last() =~= v@.take(i as int));
            assert(part.last() == v@[i as int]);
            assert(i > 0 ==> part[part.len() - 2] == v@[i - 1]);
        }
        let c: char = v[i];
        let counted = c == '\n' && i > 0 && v[i - 1] == '\r';
        if !counted {
            line.push(
                if c == '\n' || c == '\r' {
                    ' '
                } else {
                    c
                },
            );
        }
        i = i + 1;
    }
    assert(v@.take(v@.len() as int) =~= v@);
    line
}

/// Turns the end of a `netsh` process into its output or an error message.
pub fn run(success: bool, stdout: &[u8], stderr: &[u8]) -> (outcome: Result<String, String>)
    ensures
        text_result_view(outcome) == run_outcome(success, stdout@, stderr@),
{
    if success {
        Ok(text::from_utf8_lossy(stdout))
    } else {
        let decoded = text::from_utf8_lossy(stderr);
        let trimmed_text = text::trim(decoded.as_str());
        failure(trimmed_text.as_str())
    }
}

/// The error of a failed process that wrote `stderr`, in one line.
pub fn failure(stderr: &str) -> (outcome: Result<String, String>)
    ensures
        text_result_view(outcome) == complaint(stderr@),
{
    if stderr.unicode_len() == 0 {
        Err("netsh exited with an error".to_owned())
    } else {
        let line = fold(stderr);
        Err("netsh: ".to_owned().concat(line.as_str()))
    }
}

/// A folded text is a single line, and a single line is left as it is.
pub proof fn folded_is_one_line(s: Seq<char>)
    ensures
        !one_line(s).contains('\n'),
        !one_line(s).contains('\r'),
        !s.contains('\n') && !s.contains('\r') ==> one_line(s) == s,
    decreases s.len(),
{
    if s.len() > 0 {
        let front = s.drop_last();
        let rest = one_line(front);
        let line = one_line(s);
        folded_is_one_line(front);
        assert(s[s.len() - 1] == s.last());
        assert forall|i: int| 0 <= i < line.len() implies line[i] != '\n' && line[i] != '\r' by {
            if i < rest.len() {
                assert(line[i] == rest[i]);
                assert(rest.contains(rest[i]));
            }
        }
        if !s.contains('\n') && !s.contains('\r') {
            assert forall|i: int| 0 <= i < front.len() implies front[i] != '\n' && front[i]
                != '\r' by {
                assert(front[i] == s[i]);
            }
            assert(front.push(s.last()) =~= s);
        }
    }
}

/// A `netsh` failure is told in a single line.
pub proof fn failures_are_one_line(stdout: Seq<u8>, stderr: Seq<u8>)
    ensures
        run_outcome(false, stdout, stderr) matches Err(e) && !e.contains('\n') && !e.contains('\r'),
{
    let text = trimmed(utf8_lossy(stderr));
    folded_is_one_line(text);
    reveal_strlit("netsh exited with an error");
    reveal_strlit("netsh: ");
    let e = run_outcome(false, stdout, stderr)->Err_0;
    if text.len() > 0 {
        let head = "netsh: "@;
        let tail = one_line(text);
        assert forall|i: int| 0 <= i < e.len() implies e[i] != '\n' && e[i] != '\r' by {
            if i < head.len() {
                assert(e[i] == head[i]);
            } else {
                assert(e[i] == tail[i - head.len()]);
                assert(tail.contains(tail[i - head.len()]));
            }
        }
    }
}

/// In an argument that was accepted, the only double quotes are the two that
/// enclose the value: the value cannot end the argument early.
pub proof fn quotes_enclose_the_value(tag: Seq<char>, value: Seq<char>, i: int)
    requires
        !tag.contains('"'),
        quoted_arg(tag, value) is Ok,
        0 <= i < (quoted_arg(tag, value)->Ok_0).len(),
    ensures
        (quoted_arg(tag, value)->Ok_0)[i] == '"' <==> i == tag.len() + 1 || i == (quoted_arg(
            tag,
            value,
        )->Ok_0).len() - 1,
        (quoted_arg(tag, value)->Ok_0).subrange(
            tag.len() as int + 2,
            (quoted_arg(tag, value)->Ok_0).len() - 1,
        ) == value,
{
    reveal_strlit("=\"");
    reveal_strlit("\"");
    let arg = quoted_arg(tag, value)->Ok_0;
    let head = tag + "=\""@;
    assert("=\""@.len() == 2 && "\""@.len() == 1);
    assert(arg.len() == tag.len() + 2 + value.len() + 1);
    if i < tag.len() {
        assert(arg[i] == tag[i]);
    } else if i < tag.len() + 2 {
        assert(arg[i] == "=\""@[i - tag.len()]);
    } else if i < tag.len() + 2 + value.len() {
        assert(arg[i] == value[i - tag.len() - 2]);
    } else {
        assert(arg[i] == "\""@[0]);
    }
    assert(arg.subrange(tag.len() as int + 2, arg.len() - 1) =~= value);
}

} // verus!

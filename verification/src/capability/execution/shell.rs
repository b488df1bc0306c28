//! The text a local shell call reports: each stream capped at the output
//! limit, decoded with replacement of invalid UTF-8, trimmed at the end and
//! flagged when cut; stderr under its own heading; the exit code where both
//! streams are empty.
use vstd::prelude::*;
use crate::codec::{trim_end, trim_end_bound};
use crate::text::{
    chars_of, new_string, push_char, push_signed_decimal, push_str, spec_signed_decimal,
    string_from_chars,
};

verus! {

/// What `String::from_utf8_lossy` makes of `bytes`: their text, with each
/// invalid sequence replaced by U+FFFD. A function of the bytes alone.
pub uninterp spec fn utf8_lossy(bytes: Seq<u8>) -> Seq<char>;

/// `String::from_utf8_lossy`, as an owned string.
#[verifier::external_body]
pub(crate) fn lossy_text(bytes: &[u8]) -> (r: String)
    ensures
        r@ == utf8_lossy(bytes@),
{
    String::from_utf8_lossy(bytes).into_owned()
}

/// The first `max` bytes of a stream.
pub open spec fn capped(bytes: Seq<u8>, max: usize) -> Seq<u8> {
    if bytes.len() > max {
        bytes.take(max as int)
    } else {
        bytes
    }
}

/// A stream's part of the report: its trimmed text and, if it was cut, a
/// note saying so; nothing for an empty stream.
pub open spec fn stream_part(text: Seq<char>, truncated: bool, note: Seq<char>) -> Seq<char> {
    if text.len() == 0 {
        Seq::empty()
    } else {
        trim_end(text) + if truncated {
            note
        } else {
            Seq::empty()
        }
    }
}

pub open spec fn spec_shell_report_text(
    stdout: Seq<u8>,
    stderr: Seq<u8>,
    max_output_bytes: usize,
    exit_code: i32,
) -> Seq<char> {
    let out = utf8_lossy(capped(stdout, max_output_bytes));
    let err = utf8_lossy(capped(stderr, max_output_bytes));
    let first = stream_part(out, stdout.len() > max_output_bytes, "\n... (stdout truncated)"@);
    let second = if err.len() == 0 {
        Seq::empty()
    } else {
        (if first.len() > 0 {
            seq!['\n']
        } else {
            Seq::empty()
        }) + "--- stderr ---\n"@ + stream_part(
            err,
            stderr.len() > max_output_bytes,
            "\n... (stderr truncated)"@,
        )
    };
    if first.len() + second.len() == 0 {
        "(exit "@ + spec_signed_decimal(exit_code as int) + ")"@
    } else {
        first + second
    }
}

/// The report of one shell call.
pub struct ShellOutput {
    pub text: String,
    pub stdout_truncated: bool,
    pub stderr_truncated: bool,
}

fn stream_text(bytes: &[u8], max_output_bytes: usize) -> (r: (String, bool))
    ensures
        r.0@ == utf8_lossy(capped(bytes@, max_output_bytes)),
        r.1 == (bytes@.len() > max_output_bytes),
{
    if bytes.len() > max_output_bytes {
        let head = vstd::slice::slice_subrange(bytes, 0, max_output_bytes);
        assert(head@ =~= capped(bytes@, max_output_bytes));
        (lossy_text(head), true)
    } else {
        (lossy_text(bytes), false)
    }
}

fn push_stream_part(out: &mut String, text: &String, truncated: bool, note: &str)
    ensures
        final(out)@ == old(out)@ + stream_part(text@, truncated, note@),
{
    let chars = chars_of(text.as_str());
    if chars.len() == 0 {
        assert(old(out)@ + stream_part(text@, truncated, note@) =~= old(out)@);
        return;
    }
    let end = trim_end_bound(&chars, 0, chars.len());
    assert(chars@.subrange(0, chars@.len() as int) =~= chars@);
    let trimmed = string_from_chars(&chars, 0, end);
    let ghost before = out@;
    push_str(out, trimmed.as_str());
    if truncated {
        push_str(out, note);
    }
    assert(out@ =~= before + stream_part(text@, truncated, note@));
}

/// The report of a shell call whose streams were `stdout` and `stderr` and
/// whose exit code was `exit_code`, each stream capped at
/// `max_output_bytes`.
pub fn shell_output(stdout: &[u8], stderr: &[u8], max_output_bytes: usize, exit_code: i32) -> (r: ShellOutput)
    ensures
        r.text@ == spec_shell_report_text(stdout@, stderr@, max_output_bytes, exit_code),
        r.stdout_truncated == (stdout@.len() > max_output_bytes),
        r.stderr_truncated == (stderr@.len() > max_output_bytes),
{
    let (out_text, stdout_truncated) = stream_text(stdout, max_output_bytes);
    let (err_text, stderr_truncated) = stream_text(stderr, max_output_bytes);
    let mut text = new_string();
    push_stream_part(&mut text, &out_text, stdout_truncated, "\n... (stdout truncated)");
    let ghost first = text@;
    let err_chars = chars_of(err_text.as_str());
    if err_chars.len() > 0 {
        if text.as_str().unicode_len() > 0 {
            push_char(&mut text, '\n');
        }
        push_str(&mut text, "--- stderr ---\n");
        push_stream_part(&mut text, &err_text, stderr_truncated, "\n... (stderr truncated)");
    }
    let ghost both = text@;
    if text.as_str().unicode_len() == 0 {
        push_str(&mut text, "(exit ");
        push_signed_decimal(&mut text, exit_code as i64);
        push_str(&mut text, ")");
    }
    proof {
        let err = utf8_lossy(capped(stderr@, max_output_bytes));
        let second = if err.len() == 0 {
            Seq::<char>::empty()
        } else {
            (if first.len() > 0 {
                seq!['\n']
            } else {
                Seq::<char>::empty()
            }) + "--- stderr ---\n"@ + stream_part(
                err,
                stderr@.len() > max_output_bytes,
                "\n... (stderr truncated)"@,
            )
        };
        assert(both =~= first + second);
    }
    ShellOutput { text, stdout_truncated, stderr_truncated }
}

} // verus!

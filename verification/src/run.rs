//! Shaping an execution result into a chat reply: fencing output for
//! rendering, truncating what is too long, and assembling the embed
//! fields of the reply message. Sending the message is the front-end's
//! job; everything decided about its content is verified here.

use vstd::prelude::*;

verus! {

use vstd::string::{StringExecFns, StrSliceExecFns};
use crate::protocol::{ExecuteRequest, Language};

/// Output longer than this many characters is cut off before rendering.
pub const TRUNCATE_AT: usize = 1000;

/// The view of an optional syntax-highlight tag: absent means none.
pub open spec fn highlight_view(syntax_highlight: Option<&str>) -> Seq<char> {
    match syntax_highlight {
        Some(h) => h@,
        None => Seq::<char>::empty(),
    }
}

/// What a fenced output block looks like: the response inside a code
/// fence opened with the highlight tag, cut off and marked as truncated
/// when it exceeds the size constraint.
pub open spec fn formatted_output(response: Seq<char>, highlight: Seq<char>) -> Seq<char> {
    if response.len() < TRUNCATE_AT {
        "```"@ + highlight + "\n"@ + response + "\n```"@
    } else {
        "```"@ + highlight + "\n"@ + response.take(TRUNCATE_AT as int) + "[TRUNCATED]```"@
    }
}

/// Given some stdout or stderr data, format it so that the chat platform
/// can render it: fence it, tag it for highlighting, and truncate it to
/// the size constraint.
pub fn format_output(response: String, syntax_highlight: Option<&str>) -> (r: String)
    ensures
        r@ == formatted_output(response@, highlight_view(syntax_highlight)),
{
    let mut out = String::from_str("```");
    match syntax_highlight {
        Some(h) => out.append(h),
        None => {},
    }
    out.append("\n");
    if response.as_str().unicode_len() < TRUNCATE_AT {
        out.append(response.as_str());
        out.append("\n```");
    } else {
        out.append(response.as_str().substring_char(0, TRUNCATE_AT));
        out.append("[TRUNCATED]```");
    }
    proof {
        assert(out@ =~= formatted_output(response@, highlight_view(syntax_highlight)));
    }
    out
}

/// One field of the reply embed: a caption, the fenced text under it, and
/// whether the platform may render it inline.
#[derive(Debug)]
pub struct EmbedField {
    pub name: String,
    pub value: String,
    pub inline: bool,
}

/// The captions and fenced blocks of a reply, as plain values.
pub open spec fn field_views(fields: Seq<EmbedField>) -> Seq<(Seq<char>, Seq<char>, bool)> {
    fields.map_values(|f: EmbedField| (f.name@, f.value@, f.inline))
}

/// What a reply shows: always the submitted code, highlighted; the
/// captured output and error streams after it, each only when present and
/// non-empty.
pub open spec fn reply_field_views(
    code: Seq<char>,
    stdout: Option<Seq<char>>,
    stderr: Option<Seq<char>>,
) -> Seq<(Seq<char>, Seq<char>, bool)> {
    let base = seq![("Code"@, formatted_output(code, "rs"@), true)];
    let with_out = match stdout {
        Some(s) => if s.len() > 0 {
            base.push(("Output"@, formatted_output(s, Seq::<char>::empty()), false))
        } else {
            base
        },
        None => base,
    };
    match stderr {
        Some(s) => if s.len() > 0 {
            with_out.push(("Error"@, formatted_output(s, Seq::<char>::empty()), false))
        } else {
            with_out
        },
        None => with_out,
    }
}

/// Assembles the embed fields of a reply to a code submission.
pub fn reply_fields(code: String, stdout: Option<String>, stderr: Option<String>) -> (fields: Vec<
    EmbedField,
>)
    ensures
        field_views(fields@) =~= reply_field_views(code@, stdout.deep_view(), stderr.deep_view()),
{
    let mut fields: Vec<EmbedField> = Vec::new();
    fields.push(
        EmbedField {
            name: String::from_str("Code"),
            value: format_output(code, Some("rs")),
            inline: true,
        },
    );
    match stdout {
        Some(s) => {
            if !s.as_str().is_empty() {
                fields.push(
                    EmbedField {
                        name: String::from_str("Output"),
                        value: format_output(s, None),
                        inline: false,
                    },
                );
            }
        },
        None => {},
    }
    match stderr {
        Some(s) => {
            if !s.as_str().is_empty() {
                fields.push(
                    EmbedField {
                        name: String::from_str("Error"),
                        value: format_output(s, None),
                        inline: false,
                    },
                );
            }
        },
        None => {},
    }
    fields
}

/// The execution request a code submission turns into: the submitted
/// program, the one supported runtime target, and the reserved — empty —
/// argument field.
pub fn build_run_request(raw_code: String) -> (r: ExecuteRequest)
    ensures
        r.language == Language::LangRust,
        r.program@ == raw_code@,
        r.args@ == Seq::<char>::empty(),
{
    ExecuteRequest { language: Language::LangRust, program: raw_code, args: String::new() }
}

} // verus!

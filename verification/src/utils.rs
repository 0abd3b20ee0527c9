//! Values written out for people to read.

use crate::models::ModelInfo;
use crate::json::str_eq;
use crate::text::{
    decimal, digit, lowercase_of, push_decimal, push_str, string_of, to_lowercase,
};
use vstd::prelude::*;
use vstd::string::StringSliceAdditionalSpecFns;
use vstd::utf8::{decode_utf8, encode_utf8_decode_utf8, is_char_boundary};

verus! {

/// `seconds` as hours, minutes and seconds; hours, and then minutes, are
/// left out while they are zero.
pub open spec fn duration_text(seconds: nat) -> Seq<char> {
    let hours = seconds / 3600;
    let minutes = (seconds % 3600) / 60;
    let secs = seconds % 60;
    if hours > 0 {
        decimal(hours) + "h "@ + decimal(minutes) + "m "@ + decimal(secs) + "s"@
    } else if minutes > 0 {
        decimal(minutes) + "m "@ + decimal(secs) + "s"@
    } else {
        decimal(secs) + "s"@
    }
}

/// Writes a number of seconds as hours, minutes and seconds.
pub fn format_duration(seconds: u64) -> (out: String)
    ensures
        out@ == duration_text(seconds as nat),
{
    let hours = seconds / 3600;
    let minutes = (seconds % 3600) / 60;
    let secs = seconds % 60;
    let mut v: Vec<char> = Vec::new();
    if hours > 0 {
        push_decimal(&mut v, hours);
        push_str(&mut v, "h ");
        push_decimal(&mut v, minutes);
        push_str(&mut v, "m ");
        push_decimal(&mut v, secs);
        push_str(&mut v, "s");
    } else if minutes > 0 {
        push_decimal(&mut v, minutes);
        push_str(&mut v, "m ");
        push_decimal(&mut v, secs);
        push_str(&mut v, "s");
    } else {
        push_decimal(&mut v, secs);
        push_str(&mut v, "s");
    }
    proof {
        assert(v@ =~= duration_text(seconds as nat));
    }
    string_of(&v)
}

/// The three decimal digits of `n`, with leading zeros.
pub open spec fn three_digits(n: nat) -> Seq<char>
    recommends
        n < 1000,
{
    seq![digit(n / 100), digit((n / 10) % 10), digit(n % 10)]
}

/// `n` in decimal with a comma before every group of three digits counted
/// from the right.
pub open spec fn grouped(n: nat) -> Seq<char>
    decreases n,
{
    if n < 1000 {
        decimal(n)
    } else {
        grouped(n / 1000) + seq![','] + three_digits(n % 1000)
    }
}

/// Appends `num` with commas between its groups of three digits.
fn push_grouped(out: &mut Vec<char>, num: u64)
    ensures
        final(out)@ == old(out)@ + grouped(num as nat),
    decreases num,
{
    if num < 1000 {
        push_decimal(out, num);
    } else {
        push_grouped(out, num / 1000);
        let low = num % 1000;
        out.push(',');
        out.push((48u8 + (low / 100) as u8) as char);
        out.push((48u8 + ((low / 10) % 10) as u8) as char);
        out.push((48u8 + (low % 10) as u8) as char);
        proof {
            assert(out@ =~= old(out)@ + grouped(num as nat));
        }
    }
}

/// Writes a number with commas between its groups of three digits.
pub fn format_number(num: u64) -> (out: String)
    ensures
        out@ == grouped(num as nat),
{
    let mut v: Vec<char> = Vec::new();
    push_grouped(&mut v, num);
    proof {
        assert(v@ =~= grouped(num as nat));
    }
    string_of(&v)
}

/// `items` joined, with `separator` between each two.
pub open spec fn joined(items: Seq<String>, separator: Seq<char>) -> Seq<char>
    decreases items.len(),
{
    if items.len() == 0 {
        Seq::empty()
    } else if items.len() == 1 {
        items[0]@
    } else {
        joined(items.drop_last(), separator) + separator + items.last()@
    }
}

/// A line of a description, if the value is there.
pub open spec fn optional_line(label: Seq<char>, value: Option<String>) -> Seq<char> {
    match value {
        Some(v) => seq!['\n'] + label + v@,
        None => Seq::empty(),
    }
}

/// The lines that describe `model`: its id, its author if known, its
/// downloads with commas, its pipeline and library if known, its tags if it
/// has any, and when it was created and updated.
pub open spec fn model_text(model: ModelInfo) -> Seq<char> {
    "ID: "@ + model.id@ + optional_line("Author: "@, model.author) + "\nDownloads: "@ + grouped(
        model.downloads as nat,
    ) + optional_line("Pipeline: "@, model.pipeline_tag) + optional_line(
        "Library: "@,
        model.library_name,
    ) + (if model.tags.len() > 0 {
        "\nTags: "@ + joined(model.tags@, ", "@)
    } else {
        Seq::empty()
    }) + "\nCreated: "@ + model.created_at@ + "\nUpdated: "@ + model.updated_at@
}

/// Appends a line of a description, if the value is there.
fn push_optional_line(out: &mut Vec<char>, label: &str, value: &Option<String>)
    ensures
        final(out)@ == old(out)@ + optional_line(label@, *value),
{
    match value {
        Some(v) => {
            out.push('\n');
            push_str(out, label);
            push_str(out, v.as_str());
            proof {
                assert(out@ =~= old(out)@ + optional_line(label@, *value));
            }
        },
        None => {
            proof {
                assert(out@ =~= old(out)@ + optional_line(label@, *value));
            }
        },
    }
}

/// Appends `items` joined, with `separator` between each two.
fn push_joined(out: &mut Vec<char>, items: &Vec<String>, separator: &str)
    ensures
        final(out)@ == old(out)@ + joined(items@, separator@),
{
    let mut i: usize = 0;
    proof {
        assert(out@ =~= old(out)@ + joined(items@.take(0), separator@));
    }
    while i < items.len()
        invariant
            i <= items.len(),
            out@ == old(out)@ + joined(items@.take(i as int), separator@),
        decreases items.len() - i,
    {
        let ghost before = out@;
        if i > 0 {
            push_str(out, separator);
        }
        push_str(out, items[i].as_str());
        proof {
            let next = items@.take(i + 1);
            assert(next.drop_last() =~= items@.take(i as int));
            assert(next.last() == items@[i as int]);
            if i == 0 {
                assert(items@.take(0).len() == 0);
                assert(next[0] == items@[0]);
                assert(out@ =~= old(out)@ + joined(next, separator@));
            } else {
                assert(out@ =~= old(out)@ + joined(next, separator@));
            }
        }
        i += 1;
    }
    proof {
        assert(items@.take(items.len() as int) =~= items@);
    }
}

/// Describes a model in lines of text.
pub fn format_model_info(model: &ModelInfo) -> (out: String)
    ensures
        out@ == model_text(*model),
{
    let mut v: Vec<char> = Vec::new();
    push_str(&mut v, "ID: ");
    push_str(&mut v, model.id.as_str());
    push_optional_line(&mut v, "Author: ", &model.author);
    push_str(&mut v, "\nDownloads: ");
    push_grouped(&mut v, model.downloads);
    push_optional_line(&mut v, "Pipeline: ", &model.pipeline_tag);
    push_optional_line(&mut v, "Library: ", &model.library_name);
    if model.tags.len() > 0 {
        push_str(&mut v, "\nTags: ");
        push_joined(&mut v, &model.tags, ", ");
    }
    push_str(&mut v, "\nCreated: ");
    push_str(&mut v, model.created_at.as_str());
    push_str(&mut v, "\nUpdated: ");
    push_str(&mut v, model.updated_at.as_str());
    proof {
        assert(v@ =~= model_text(*model));
    }
    string_of(&v)
}

/// Where a text that is longer than `max_len` bytes is cut: three bytes
/// before `max_len`, to leave room for the dots, and never before its start.
pub open spec fn cut_of(max_len: usize) -> int {
    if max_len >= 3 {
        max_len - 3
    } else {
        0
    }
}

/// `text` as it is where its encoding has at most `max_len` bytes; else
/// what stands before the cut, and three dots.
pub open spec fn truncated(text: Seq<char>, bytes: Seq<u8>, max_len: usize) -> Seq<char> {
    if bytes.len() <= max_len {
        text
    } else {
        decode_utf8(bytes.subrange(0, cut_of(max_len))) + "..."@
    }
}

/// Shortens a text to about `max_len` bytes, with three dots in place of
/// what was cut off. A text that is cut has to be cut between characters.
pub fn truncate_text(text: &str, max_len: usize) -> (out: String)
    requires
        text.spec_bytes().len() <= max_len || is_char_boundary(text.spec_bytes(), cut_of(max_len)),
    ensures
        out@ == truncated(text@, text.spec_bytes(), max_len),
{
    if text.as_bytes().len() <= max_len {
        return text.to_owned();
    }
    let cut: usize = if max_len >= 3 {
        max_len - 3
    } else {
        0
    };
    let (head, _) = text.split_at(cut);
    let mut v: Vec<char> = Vec::new();
    push_str(&mut v, head);
    push_str(&mut v, "...");
    proof {
        encode_utf8_decode_utf8(head@);
        assert(v@ =~= truncated(text@, text.spec_bytes(), max_len));
    }
    string_of(&v)
}

/// The cells of a table row, with a bar between each two.
pub fn table_row(cells: &Vec<String>) -> (out: String)
    ensures
        out@ == joined(cells@, " | "@),
{
    let mut v: Vec<char> = Vec::new();
    push_joined(&mut v, cells, " | ");
    proof {
        assert(v@ =~= joined(cells@, " | "@));
    }
    string_of(&v)
}

/// The formats in which values are written out.
#[derive(Debug, Clone, Copy, PartialEq, Eq)]
pub enum OutputFormat {
    Table,
    Json,
    Yaml,
}

impl OutputFormat {
    /// The format that `name` stands for, letter case aside: `json`, `yaml`
    /// or `yml`; any other name stands for a table.
    pub open spec fn of_name(name: Seq<char>) -> OutputFormat {
        if lowercase_of(name) == "json"@ {
            OutputFormat::Json
        } else if lowercase_of(name) == "yaml"@ || lowercase_of(name) == "yml"@ {
            OutputFormat::Yaml
        } else {
            OutputFormat::Table
        }
    }

    /// The format that `name` stands for.
    pub fn from_name(name: &str) -> (format: OutputFormat)
        ensures
            format == Self::of_name(name@),
    {
        let lower = to_lowercase(name);
        if str_eq(lower.as_str(), "json") {
            OutputFormat::Json
        } else if str_eq(lower.as_str(), "yaml") || str_eq(lower.as_str(), "yml") {
            OutputFormat::Yaml
        } else {
            OutputFormat::Table
        }
    }
}

} // verus!

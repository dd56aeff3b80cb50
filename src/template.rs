//! Path templates: rendering a snapshot's description into a path.
use vstd::prelude::*;

use std::fmt::Write;

use runtime_format::{ParseSegment, ToFormatParser};

use crate::text::{push_char, str_eq, strings_view};

verus! {

/// The path template used when none is given.
pub const DEFAULT_PATH_TEMPLATE: &'static str = "[{hostname}]/[{label}]/{time}";

/// The time format used when none is given.
pub const DEFAULT_TIME_TEMPLATE: &'static str = "%Y-%m-%d_%H-%M-%S";

/// A point in time: seconds and nanoseconds since the Unix epoch, and the
/// offset in seconds east of UTC in which it is shown.
#[derive(Clone, Copy, Debug, PartialEq, Eq, Structural)]
pub struct Timestamp {
    pub secs: i64,
    pub nanos: u32,
    pub offset: i32,
}

/// The identity of a directory tree in the content-addressed store.
/// Equal trees have equal locators.
#[derive(Clone, Copy, Debug, PartialEq, Eq, Structural)]
pub struct Locator(pub u128, pub u128);

/// What the namespace reads of a snapshot.
#[derive(Clone, Debug)]
pub struct SnapshotInfo {
    /// The short form of the snapshot's id.
    pub id: String,
    /// The full form of the snapshot's id.
    pub long_id: String,
    pub time: Timestamp,
    pub hostname: String,
    pub username: String,
    pub label: String,
    pub tags: Vec<String>,
    /// Start and end of the backup run, when the snapshot records them.
    pub summary: Option<(Timestamp, Timestamp)>,
    /// The snapshot's root directory.
    pub tree: Locator,
}

/// Why a template could not be rendered.
#[derive(Clone, Copy, Debug, PartialEq, Eq, Structural)]
pub enum TemplateError {
    /// A placeholder that names no snapshot field.
    UnknownKey,
    /// The time format cannot render a time.
    BadTimeFormat,
    /// Text at the end of the template that does not parse.
    Unparsed,
}

/// The pieces runtime_format's parser cuts a template into (`true` marks a
/// placeholder), and the text it leaves unparsed.
pub uninterp spec fn parsed_template(s: Seq<char>) -> (Seq<(bool, Seq<char>)>, Seq<char>);

/// The text chrono renders for a time under a format, if it can.
pub uninterp spec fn formatted_time(secs: i64, nanos: u32, offset: i32, fmt: Seq<char>) -> Option<Seq<char>>;

/// The character contents of template pieces.
pub open spec fn pieces_view(v: Seq<(bool, String)>) -> Seq<(bool, Seq<char>)> {
    v.map_values(|p: (bool, String)| (p.0, p.1@))
}

/// Relies on runtime_format's parser (`str::to_parser`, `ToFormatParser::unparsed`):
/// the literal and placeholder pieces of a template, and what is left unparsed.
#[verifier::external_body]
fn parse_template(s: &str) -> (r: (Vec<(bool, String)>, String))
    ensures
        (pieces_view(r.0@), r.1@) == parsed_template(s@),
{
    let mut parser = s.to_parser();
    let mut pieces = Vec::new();
    for seg in &mut parser {
        match seg {
            ParseSegment::Literal(l) => pieces.push((false, l.to_string())),
            ParseSegment::Key(k) => pieces.push((true, k.to_string())),
            _ => {},
        }
    }
    (pieces, <str as ToFormatParser>::unparsed(parser).to_string())
}

/// Relies on chrono: `DateTime::from_timestamp`, `FixedOffset::east_opt` and
/// `DateTime::format` render a time, or fail on a bad time or format.
#[verifier::external_body]
fn format_time(secs: i64, nanos: u32, offset: i32, fmt: &str) -> (r: Option<String>)
    ensures
        match r {
            Some(t) => formatted_time(secs, nanos, offset, fmt@) == Some(t@),
            None => formatted_time(secs, nanos, offset, fmt@) is None,
        },
{
    let tz = chrono::FixedOffset::east_opt(offset)?;
    let dt = chrono::DateTime::<chrono::Utc>::from_timestamp(secs, nanos)?.with_timezone(&tz);
    let mut out = String::new();
    write!(out, "{}", dt.format(fmt)).ok()?;
    Some(out)
}

/// A time rendered under a time format.
pub open spec fn time_text(t: Timestamp, fmt: Seq<char>) -> Result<Seq<char>, TemplateError> {
    match formatted_time(t.secs, t.nanos, t.offset, fmt) {
        Some(x) => Ok(x),
        None => Err(TemplateError::BadTimeFormat),
    }
}

/// Strings joined with commas.
pub open spec fn joined(v: Seq<Seq<char>>) -> Seq<char>
    decreases v.len(),
{
    if v.len() == 0 {
        Seq::empty()
    } else if v.len() == 1 {
        v[0]
    } else {
        joined(v.drop_last()) + ","@ + v.last()
    }
}

/// The text a placeholder stands for.
pub open spec fn key_text(s: SnapshotInfo, fmt: Seq<char>, key: Seq<char>) -> Result<Seq<char>, TemplateError> {
    if key == "id"@ {
        Ok(s.id@)
    } else if key == "long_id"@ {
        Ok(s.long_id@)
    } else if key == "time"@ {
        time_text(s.time, fmt)
    } else if key == "username"@ {
        Ok(s.username@)
    } else if key == "hostname"@ {
        Ok(s.hostname@)
    } else if key == "label"@ {
        Ok(s.label@)
    } else if key == "tags"@ {
        Ok(joined(strings_view(s.tags@)))
    } else if key == "backup_start"@ {
        match s.summary {
            Some(p) => time_text(p.0, fmt),
            None => Ok("no_backup_start"@),
        }
    } else if key == "backup_end"@ {
        match s.summary {
            Some(p) => time_text(p.1, fmt),
            None => Ok("no_backup_end"@),
        }
    } else {
        Err(TemplateError::UnknownKey)
    }
}

/// The pieces of a template rendered in order; the first failing piece
/// decides the error.
pub open spec fn render_pieces(pieces: Seq<(bool, Seq<char>)>, s: SnapshotInfo, fmt: Seq<char>) -> Result<Seq<char>, TemplateError>
    decreases pieces.len(),
{
    if pieces.len() == 0 {
        Ok(Seq::empty())
    } else {
        match render_pieces(pieces.drop_last(), s, fmt) {
            Err(e) => Err(e),
            Ok(pre) => if pieces.last().0 {
                match key_text(s, fmt, pieces.last().1) {
                    Ok(t) => Ok(pre + t),
                    Err(e) => Err(e),
                }
            } else {
                Ok(pre + pieces.last().1)
            },
        }
    }
}

/// Whether a placeholder names a snapshot field.
pub open spec fn known_key(k: Seq<char>) -> bool {
    k == "id"@ || k == "long_id"@ || k == "time"@ || k == "username"@ || k == "hostname"@
        || k == "label"@ || k == "tags"@ || k == "backup_start"@ || k == "backup_end"@
}

/// What is wrong with a parsed template: an unknown placeholder, else
/// text left unparsed.
pub open spec fn pieces_error(pieces: Seq<(bool, Seq<char>)>, rest: Seq<char>) -> Option<TemplateError> {
    if exists|i: int| 0 <= i < pieces.len() && #[trigger] pieces[i].0 && !known_key(pieces[i].1) {
        Some(TemplateError::UnknownKey)
    } else if rest.len() > 0 {
        Some(TemplateError::Unparsed)
    } else {
        None
    }
}

/// What is wrong with a template before any snapshot is rendered.
pub open spec fn template_error(template: Seq<char>) -> Option<TemplateError> {
    pieces_error(parsed_template(template).0, parsed_template(template).1)
}

/// Whether a placeholder names a snapshot field.
pub fn is_known_key(k: &str) -> (r: bool)
    ensures
        r == known_key(k@),
{
    str_eq(k, "id") || str_eq(k, "long_id") || str_eq(k, "time") || str_eq(k, "username")
        || str_eq(k, "hostname") || str_eq(k, "label") || str_eq(k, "tags")
        || str_eq(k, "backup_start") || str_eq(k, "backup_end")
}

/// Checks a parsed template: its placeholders and what is left unparsed.
pub fn check_pieces(pieces: &Vec<(bool, String)>, rest: &str) -> (r: Option<TemplateError>)
    ensures
        r == pieces_error(pieces_view(pieces@), rest@),
{
    let ghost pv = pieces_view(pieces@);
    let mut i: usize = 0;
    while i < pieces.len()
        invariant
            i <= pieces.len(),
            pv == pieces_view(pieces@),
            forall|k: int| 0 <= k < i ==> !(#[trigger] pv[k].0 && !known_key(pv[k].1)),
        decreases pieces.len() - i,
    {
        assert(pv[i as int] == (pieces@[i as int].0, pieces@[i as int].1@));
        if pieces[i].0 && !is_known_key(pieces[i].1.as_str()) {
            assert(pv[i as int].0 && !known_key(pv[i as int].1));
            return Some(TemplateError::UnknownKey);
        }
        i = i + 1;
    }
    if rest.unicode_len() > 0 {
        Some(TemplateError::Unparsed)
    } else {
        None
    }
}

/// Checks a template once, before any snapshot is rendered.
pub fn check_template(template: &str) -> (r: Option<TemplateError>)
    ensures
        r == template_error(template@),
{
    let (pieces, rest) = parse_template(template);
    check_pieces(&pieces, rest.as_str())
}

/// A parsed template rendered for a snapshot; text left unparsed fails
/// once the pieces have rendered.
pub open spec fn render_parsed_spec(pieces: Seq<(bool, Seq<char>)>, rest: Seq<char>, s: SnapshotInfo, fmt: Seq<char>) -> Result<Seq<char>, TemplateError> {
    match render_pieces(pieces, s, fmt) {
        Err(e) => Err(e),
        Ok(t) => if rest.len() > 0 {
            Err(TemplateError::Unparsed)
        } else {
            Ok(t)
        },
    }
}

/// A template rendered for a snapshot.
pub open spec fn render_spec(template: Seq<char>, s: SnapshotInfo, fmt: Seq<char>) -> Result<Seq<char>, TemplateError> {
    render_parsed_spec(parsed_template(template).0, parsed_template(template).1, s, fmt)
}

/// Tags joined with commas.
pub fn join_tags(tags: &Vec<String>) -> (r: String)
    ensures
        r@ == joined(strings_view(tags@)),
{
    let mut out = String::new();
    let mut i: usize = 0;
    while i < tags.len()
        invariant
            i <= tags.len(),
            out@ == joined(strings_view(tags@).subrange(0, i as int)),
        decreases tags.len() - i,
    {
        let ghost v = strings_view(tags@);
        assert(v.subrange(0, i + 1).drop_last() == v.subrange(0, i as int));
        if i > 0 {
            out.append(",");
        }
        out.append(tags[i].as_str());
        assert(v.subrange(0, i + 1).last() == tags@[i as int]@);
        if i == 0 {
            assert(out@ == v.subrange(0, 1)[0]);
        }
        i = i + 1;
    }
    assert(strings_view(tags@).subrange(0, tags.len() as int) == strings_view(tags@));
    out
}

fn time_string(t: Timestamp, fmt: &str) -> (r: Result<String, TemplateError>)
    ensures
        match r {
            Ok(x) => time_text(t, fmt@) == Ok::<Seq<char>, TemplateError>(x@),
            Err(e) => time_text(t, fmt@) == Err::<Seq<char>, TemplateError>(e),
        },
{
    match format_time(t.secs, t.nanos, t.offset, fmt) {
        Some(x) => Ok(x),
        None => Err(TemplateError::BadTimeFormat),
    }
}

/// A snapshot together with the time format its times are rendered in.
pub struct FormattedSnapshot<'a>(pub &'a SnapshotInfo, pub &'a str);

impl<'a> FormattedSnapshot<'a> {
    /// The text the placeholder `key` stands for; unknown keys are refused.
    pub fn fmt(&self, key: &str) -> (r: Result<String, TemplateError>)
        ensures
            match r {
                Ok(x) => key_text(*self.0, self.1@, key@) == Ok::<Seq<char>, TemplateError>(x@),
                Err(e) => key_text(*self.0, self.1@, key@) == Err::<Seq<char>, TemplateError>(e),
            },
    {
        let s = self.0;
        if str_eq(key, "id") {
            Ok(s.id.clone())
        } else if str_eq(key, "long_id") {
            Ok(s.long_id.clone())
        } else if str_eq(key, "time") {
            time_string(s.time, self.1)
        } else if str_eq(key, "username") {
            Ok(s.username.clone())
        } else if str_eq(key, "hostname") {
            Ok(s.hostname.clone())
        } else if str_eq(key, "label") {
            Ok(s.label.clone())
        } else if str_eq(key, "tags") {
            Ok(join_tags(&s.tags))
        } else if str_eq(key, "backup_start") {
            match s.summary {
                Some(p) => time_string(p.0, self.1),
                None => Ok(String::from_str("no_backup_start")),
            }
        } else if str_eq(key, "backup_end") {
            match s.summary {
                Some(p) => time_string(p.1, self.1),
                None => Ok(String::from_str("no_backup_end")),
            }
        } else {
            Err(TemplateError::UnknownKey)
        }
    }
}

/// Renders a parsed template for snapshot `s`, with times in `time_format`.
pub fn render_parsed(pieces: &Vec<(bool, String)>, rest: &str, s: &SnapshotInfo, time_format: &str) -> (r: Result<String, TemplateError>)
    ensures
        match r {
            Ok(x) => render_parsed_spec(pieces_view(pieces@), rest@, *s, time_format@) == Ok::<Seq<char>, TemplateError>(x@),
            Err(e) => render_parsed_spec(pieces_view(pieces@), rest@, *s, time_format@) == Err::<Seq<char>, TemplateError>(e),
        },
{
    let ghost pv = pieces_view(pieces@);
    let f = FormattedSnapshot(s, time_format);
    let mut out = String::new();
    let mut i: usize = 0;
    while i < pieces.len()
        invariant
            i <= pieces.len(),
            pv == pieces_view(pieces@),
            f.0 == s,
            f.1@ == time_format@,
            render_pieces(pv.subrange(0, i as int), *s, time_format@) == Ok::<Seq<char>, TemplateError>(out@),
        decreases pieces.len() - i,
    {
        assert(pv.subrange(0, i + 1).drop_last() == pv.subrange(0, i as int));
        assert(pv.subrange(0, i + 1).last() == pv[i as int]);
        assert(pv[i as int] == (pieces@[i as int].0, pieces@[i as int].1@));
        if pieces[i].0 {
            match f.fmt(pieces[i].1.as_str()) {
                Ok(t) => out.append(t.as_str()),
                Err(e) => {
                    assert(render_pieces(pv.subrange(0, i + 1), *s, time_format@) == Err::<Seq<char>, TemplateError>(e));
                    proof {
                        lemma_render_error_stays(pv, *s, time_format@, i + 1);
                    }
                    return Err(e);
                },
            }
        } else {
            out.append(pieces[i].1.as_str());
        }
        i = i + 1;
    }
    assert(pv.subrange(0, pieces.len() as int) == pv);
    if rest.unicode_len() > 0 {
        Err(TemplateError::Unparsed)
    } else {
        Ok(out)
    }
}

/// Renders `template` for snapshot `s`, with times in `time_format`.
pub fn render(template: &str, s: &SnapshotInfo, time_format: &str) -> (r: Result<String, TemplateError>)
    ensures
        match r {
            Ok(x) => render_spec(template@, *s, time_format@) == Ok::<Seq<char>, TemplateError>(x@),
            Err(e) => render_spec(template@, *s, time_format@) == Err::<Seq<char>, TemplateError>(e),
        },
{
    let (pieces, rest) = parse_template(template);
    render_parsed(&pieces, rest.as_str(), s, time_format)
}

/// Once a prefix of the pieces fails to render, the whole does, with the
/// same error.
proof fn lemma_render_error_stays(pv: Seq<(bool, Seq<char>)>, s: SnapshotInfo, fmt: Seq<char>, k: int)
    requires
        0 <= k <= pv.len(),
        render_pieces(pv.subrange(0, k), s, fmt) is Err,
    ensures
        render_pieces(pv, s, fmt) == render_pieces(pv.subrange(0, k), s, fmt),
    decreases pv.len() - k,
{
    if k < pv.len() {
        assert(pv.subrange(0, k + 1).drop_last() == pv.subrange(0, k));
        lemma_render_error_stays(pv, s, fmt, k + 1);
    } else {
        assert(pv.subrange(0, k) == pv);
    }
}

} // verus!

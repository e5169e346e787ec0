use vstd::prelude::*;
use crate::filter::{contains, has_substring, rejects, FilterChain};
use crate::level::{color_of, emoji_of, name_of, Level};
use crate::message::{embeds_of, Embed, EmbedField, MessagePayload, PayloadMessageType};
use crate::text::{decimal, decimal_of, join2, owned, truncate, truncated};

verus! {

/// Longest description an embed may carry.
pub const MAX_DESCRIPTION_LENGTH: usize = 2048;

/// Longest value an embed field may carry.
pub const MAX_FIELD_VALUE_LENGTH: usize = 1024;

/// The value of a field of an event.
#[derive(Clone, Debug)]
pub enum FieldValue {
    /// A string value.
    Text(String),
    /// Any other value (number, boolean, structure), as its JSON text.
    Json(String),
}

/// A named value recorded with an event or a span.
#[derive(Clone, Debug)]
pub struct Field {
    pub key: String,
    pub value: FieldValue,
}

/// The scope that was active when an event was recorded.
#[derive(Clone, Debug)]
pub struct SpanContext {
    pub name: String,
    pub fields: Vec<Field>,
}

/// What the formatter reads of an event.
#[derive(Clone, Debug)]
pub struct EventRecord {
    pub target: String,
    pub level: Level,
    /// The event's fields, in the order they were recorded.
    pub fields: Vec<Field>,
    pub file: Option<String>,
    pub line: Option<u32>,
    pub span: Option<SpanContext>,
}

/// The JSON string literal of a text, quoted and escaped.
pub uninterp spec fn json_text_of(s: Seq<char>) -> Seq<char>;

/// Relies on serde_json's `Display` for `Value::String`: it writes the JSON
/// string literal of the text.
#[verifier::external_body]
fn json_quote(s: &str) -> (r: String)
    ensures
        r@ == json_text_of(s@),
{
    serde_json::Value::from(s).to_string()
}

/// The text of the first field called `key`, when that field holds a string.
pub open spec fn text_field(fields: Seq<Field>, key: Seq<char>) -> Option<Seq<char>>
    decreases fields.len(),
{
    if fields.len() == 0 {
        None
    } else if fields[0].key@ == key {
        match fields[0].value {
            FieldValue::Text(s) => Some(s@),
            FieldValue::Json(_) => None,
        }
    } else {
        text_field(fields.drop_first(), key)
    }
}

/// The key of the field that gives the heading, if any.
pub open spec fn heading_source(fields: Seq<Field>) -> Option<Seq<char>> {
    if text_field(fields, "message"@).is_some() {
        Some("message"@)
    } else if text_field(fields, "error"@).is_some() {
        Some("error"@)
    } else {
        None
    }
}

/// The `message` text, else the `error` text, else a fixed fallback.
pub open spec fn heading(fields: Seq<Field>) -> Seq<char> {
    match text_field(fields, "message"@) {
        Some(m) => m,
        None => match text_field(fields, "error"@) {
            Some(e) => e,
            None => "No message"@,
        },
    }
}

/// How a field value is shown.
pub open spec fn rendered(v: FieldValue) -> Seq<char> {
    match v {
        FieldValue::Text(s) => json_text_of(s@),
        FieldValue::Json(t) => t@,
    }
}

/// A text as a field value: cut to leave room for the two backticks around it.
pub open spec fn quoted_value(s: Seq<char>) -> Seq<char> {
    "`"@ + truncated(s, (MAX_FIELD_VALUE_LENGTH - 2) as nat) + "`"@
}

/// An embed field as name, value and inline flag.
pub open spec fn field_view(f: EmbedField) -> (Seq<char>, Seq<char>, bool) {
    (f.name@, f.value@, f.inline)
}

pub open spec fn field_views(v: Seq<EmbedField>) -> Seq<(Seq<char>, Seq<char>, bool)> {
    v.map_values(|f: EmbedField| field_view(f))
}

/// Whether a field is shown: it is not the heading's source, and its key does
/// not hold the excluded text.
pub open spec fn shown(f: Field, skip: Option<Seq<char>>, excl: Option<String>) -> bool {
    &&& skip != Some(f.key@)
    &&& match excl {
        Some(x) => !contains(f.key@, x@),
        None => true,
    }
}

/// The entries shown for a list of fields, in order.
pub open spec fn entries(
    fields: Seq<Field>,
    prefix: Seq<char>,
    skip: Option<Seq<char>>,
    excl: Option<String>,
) -> Seq<(Seq<char>, Seq<char>, bool)>
    decreases fields.len(),
{
    if fields.len() == 0 {
        Seq::empty()
    } else {
        let rest = entries(fields.drop_last(), prefix, skip, excl);
        let f = fields.last();
        if shown(f, skip, excl) {
            rest.push((prefix + f.key@, quoted_value(rendered(f.value)), true))
        } else {
            rest
        }
    }
}

pub open spec fn span_name(ev: EventRecord) -> Seq<char> {
    match ev.span {
        Some(sp) => sp.name@,
        None => Seq::empty(),
    }
}

pub open spec fn source_text(ev: EventRecord) -> Seq<char> {
    let file = match ev.file {
        Some(f) => f@,
        None => "Unknown"@,
    };
    let line: nat = match ev.line {
        Some(l) => l as nat,
        None => 0,
    };
    file + "#L"@ + decimal_of(line)
}

/// All fields of the embed for an event: where it comes from, then its own
/// fields, then those of its span.
pub open spec fn expected_fields(chain: FilterChain, ev: EventRecord) -> Seq<
    (Seq<char>, Seq<char>, bool),
> {
    let target_span = ("Target Span"@, quoted_value(ev.target@ + "::"@ + span_name(ev)), true);
    let source = ("Source"@, quoted_value(source_text(ev)), true);
    let own = entries(ev.fields@, "Meta/"@, heading_source(ev.fields@), chain.field_exclusion);
    let from_span = match ev.span {
        Some(sp) => entries(sp.fields@, "SpanExt/"@, None, chain.field_exclusion),
        None => Seq::empty(),
    };
    seq![target_span, source] + own + from_span
}

/// The embed that an accepted event becomes.
pub open spec fn embed_for(
    e: Embed,
    chain: FilterChain,
    ev: EventRecord,
    app_name: Seq<char>,
) -> bool {
    &&& e.title@ == emoji_of(ev.level) + " "@ + name_of(ev.level) + " ("@ + app_name + ")"@
    &&& e.description@ == truncated(heading(ev.fields@), MAX_DESCRIPTION_LENGTH as nat)
    &&& field_views(e.fields@) == expected_fields(chain, ev)
    &&& e.footer@ == app_name
    &&& e.color == color_of(ev.level)
    &&& e.thumbnail.is_none()
}

fn text_field_exec(fields: &Vec<Field>, key: &str) -> (r: Option<String>)
    ensures
        match r {
            Some(s) => text_field(fields@, key@) == Some(s@),
            None => text_field(fields@, key@).is_none(),
        },
{
    let key_string = owned(key);
    let mut i: usize = 0;
    assert(fields@.subrange(0, fields@.len() as int) =~= fields@);
    while i < fields.len()
        invariant
            0 <= i <= fields@.len(),
            key_string@ == key@,
            text_field(fields@, key@) == text_field(fields@.subrange(i as int, fields@.len() as int), key@),
        decreases fields@.len() - i,
    {
        let ghost rest = fields@.subrange(i as int, fields@.len() as int);
        assert(rest.drop_first() =~= fields@.subrange(i + 1, fields@.len() as int));
        if fields[i].key == key_string {
            return match &fields[i].value {
                FieldValue::Text(s) => Some(owned(s.as_str())),
                FieldValue::Json(_) => None,
            };
        }
        i = i + 1;
    }
    None
}

/// The heading of an event with these fields.
pub(crate) fn heading_exec(fields: &Vec<Field>) -> (r: String)
    ensures
        r@ == heading(fields@),
{
    match text_field_exec(fields, "message") {
        Some(m) => m,
        None => match text_field_exec(fields, "error") {
            Some(e) => e,
            None => owned("No message"),
        },
    }
}

fn heading_source_exec(fields: &Vec<Field>) -> (r: Option<String>)
    ensures
        match r {
            Some(s) => heading_source(fields@) == Some(s@),
            None => heading_source(fields@).is_none(),
        },
{
    if text_field_exec(fields, "message").is_some() {
        Some(owned("message"))
    } else if text_field_exec(fields, "error").is_some() {
        Some(owned("error"))
    } else {
        None
    }
}

fn quote_value(s: &str) -> (r: String)
    ensures
        r@ == quoted_value(s@),
{
    let cut = truncate(s, MAX_FIELD_VALUE_LENGTH - 2);
    let mut r = join2("`", cut.as_str());
    r.append("`");
    r
}

fn render(v: &FieldValue) -> (r: String)
    ensures
        r@ == rendered(*v),
{
    match v {
        FieldValue::Text(s) => json_quote(s.as_str()),
        FieldValue::Json(t) => owned(t.as_str()),
    }
}

fn is_shown(f: &Field, skip: &Option<String>, excl: &Option<String>) -> (r: bool)
    ensures
        r == shown(
            *f,
            match skip {
                Some(s) => Some(s@),
                None => None,
            },
            *excl,
        ),
{
    let skipped = match skip {
        Some(s) => f.key == *s,
        None => false,
    };
    if skipped {
        return false;
    }
    match excl {
        Some(x) => !has_substring(f.key.as_str(), x.as_str()),
        None => true,
    }
}

fn push_entries(
    out: &mut Vec<EmbedField>,
    fields: &Vec<Field>,
    prefix: &str,
    skip: &Option<String>,
    excl: &Option<String>,
)
    ensures
        field_views(final(out)@) == field_views(old(out)@) + entries(
            fields@,
            prefix@,
            match skip {
                Some(s) => Some(s@),
                None => None,
            },
            *excl,
        ),
{
    let ghost skip_view = match skip {
        Some(s) => Some(s@),
        None => None,
    };
    let ghost start = out@;
    let mut i: usize = 0;
    assert(fields@.subrange(0, 0) =~= Seq::<Field>::empty());
    assert(field_views(start) + entries(Seq::<Field>::empty(), prefix@, skip_view, *excl) =~= field_views(start));
    while i < fields.len()
        invariant
            0 <= i <= fields@.len(),
            field_views(out@) == field_views(start) + entries(
                fields@.subrange(0, i as int),
                prefix@,
                skip_view,
                *excl,
            ),
            skip_view == match skip {
                Some(s) => Some(s@),
                None => None::<Seq<char>>,
            },
        decreases fields@.len() - i,
    {
        let ghost before = out@;
        let f = &fields[i];
        assert(fields@.subrange(0, i + 1).drop_last() =~= fields@.subrange(0, i as int));
        assert(fields@.subrange(0, i + 1).last() == fields@[i as int]);
        if is_shown(f, skip, excl) {
            let name = join2(prefix, f.key.as_str());
            let text = render(&f.value);
            let value = quote_value(text.as_str());
            out.push(EmbedField { name, value, inline: true });
            assert(field_views(out@) =~= field_views(before).push(field_view(out@.last())));
        }
        i = i + 1;
    }
    assert(fields@.subrange(0, fields@.len() as int) =~= fields@);
}

/// The message for an event, or `None` when the filter chain rejects it.
/// An accepted event gives one embed and no plain text, addressed to
/// `webhook_url`.
pub fn format_event(
    chain: &FilterChain,
    ev: &EventRecord,
    app_name: &str,
    webhook_url: &str,
) -> (r: Option<MessagePayload>)
    ensures
        r.is_some() == !rejects(*chain, *ev),
        match r {
            Some(p) => {
                &&& p.content.is_none()
                &&& p.webhook_url@ == webhook_url@
                &&& p.embeds.is_some()
                &&& p.embeds.unwrap()@.len() == 1
                &&& embed_for(p.embeds.unwrap()@[0], *chain, *ev, app_name@)
            },
            None => true,
        },
{
    if !chain.accepts(ev) {
        return None;
    }
    let head = heading_exec(&ev.fields);
    let description = truncate(head.as_str(), MAX_DESCRIPTION_LENGTH);

    let mut place = join2(ev.target.as_str(), "::");
    match &ev.span {
        Some(sp) => place.append(sp.name.as_str()),
        None => {},
    }
    let mut source = match &ev.file {
        Some(f) => owned(f.as_str()),
        None => owned("Unknown"),
    };
    source.append("#L");
    let line: u32 = match ev.line {
        Some(l) => l,
        None => 0,
    };
    let number = decimal(line as u64);
    source.append(number.as_str());

    let mut fields: Vec<EmbedField> = Vec::new();
    fields.push(EmbedField { name: owned("Target Span"), value: quote_value(place.as_str()), inline: true });
    fields.push(EmbedField { name: owned("Source"), value: quote_value(source.as_str()), inline: true });
    let ghost first_two = field_views(fields@);
    let skip = heading_source_exec(&ev.fields);
    push_entries(&mut fields, &ev.fields, "Meta/", &skip, &chain.field_exclusion);
    let ghost with_own = field_views(fields@);
    match &ev.span {
        Some(sp) => push_entries(&mut fields, &sp.fields, "SpanExt/", &None, &chain.field_exclusion),
        None => {},
    }
    proof {
        let skip_view = match skip {
            Some(s) => Some(s@),
            None => None,
        };
        assert(skip_view == heading_source(ev.fields@));
        assert(first_two =~= seq![
            ("Target Span"@, quoted_value(ev.target@ + "::"@ + span_name(*ev)), true),
            ("Source"@, quoted_value(source_text(*ev)), true),
        ]);
        assert(field_views(fields@) =~= expected_fields(*chain, *ev));
    }

    let mut title = join2(ev.level.as_emoji(), " ");
    title.append(ev.level.as_str());
    title.append(" (");
    title.append(app_name);
    title.append(")");

    let embed = Embed {
        title,
        description,
        fields,
        footer: owned(app_name),
        color: ev.level.as_color(),
        thumbnail: None,
    };
    let mut embeds: Vec<Embed> = Vec::new();
    embeds.push(embed);
    let kind = PayloadMessageType::EmbedNoText(embeds);
    assert(embeds_of(kind) == Some(embeds));
    Some(MessagePayload::new(kind, owned(webhook_url)))
}

} // verus!

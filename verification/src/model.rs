//! Typed results of the service's calls, and how they are read out of a
//! parsed JSON response.
//!
//! A listing is best-effort: entries of the `list` array that do not have the
//! expected shape are silently dropped. A fetch is strict: any shape failure
//! fails the whole call.

use vstd::prelude::*;
use crate::json::JsonValue;
use crate::json::field_of;
use crate::json::get_field;
use crate::json::get_str_field;
use crate::json::str_field;

verus! {

/// One inbox entry as the listing call reports it.
#[derive(Debug, Clone, PartialEq, Eq)]
pub struct Message {
    pub mail_id: String,
    pub mail_from: String,
    pub mail_subject: String,
    pub mail_date: String,
}

/// Mathematical image of a [`Message`].
#[verifier::ext_equal]
pub struct MessageView {
    pub mail_id: Seq<char>,
    pub mail_from: Seq<char>,
    pub mail_subject: Seq<char>,
    pub mail_date: Seq<char>,
}

impl View for Message {
    type V = MessageView;

    open spec fn view(&self) -> MessageView {
        MessageView {
            mail_id: self.mail_id@,
            mail_from: self.mail_from@,
            mail_subject: self.mail_subject@,
            mail_date: self.mail_date@,
        }
    }
}

/// One attachment of a fetched message.
#[derive(Debug, Clone, PartialEq, Eq)]
pub struct Attachment {
    pub file_name: String,
    pub content_type: String,
}

/// Mathematical image of an [`Attachment`].
#[verifier::ext_equal]
pub struct AttachmentView {
    pub file_name: Seq<char>,
    pub content_type: Seq<char>,
}

impl View for Attachment {
    type V = AttachmentView;

    open spec fn view(&self) -> AttachmentView {
        AttachmentView { file_name: self.file_name@, content_type: self.content_type@ }
    }
}

/// A fetched message: the summary fields plus the body and the attachments.
#[derive(Debug, Clone, PartialEq, Eq)]
pub struct EmailDetails {
    pub mail_id: String,
    pub mail_from: String,
    pub mail_subject: String,
    pub mail_date: String,
    pub mail_body: String,
    pub attachments: Vec<Attachment>,
}

/// Mathematical image of an [`EmailDetails`].
#[verifier::ext_equal]
pub struct EmailDetailsView {
    pub mail_id: Seq<char>,
    pub mail_from: Seq<char>,
    pub mail_subject: Seq<char>,
    pub mail_date: Seq<char>,
    pub mail_body: Seq<char>,
    pub attachments: Seq<AttachmentView>,
}

/// The views of a sequence of attachments, element by element.
pub open spec fn att_views(s: Seq<Attachment>) -> Seq<AttachmentView> {
    s.map_values(|a: Attachment| a@)
}

/// The views of a sequence of messages, element by element.
pub open spec fn msg_views(s: Seq<Message>) -> Seq<MessageView> {
    s.map_values(|m: Message| m@)
}

impl View for EmailDetails {
    type V = EmailDetailsView;

    open spec fn view(&self) -> EmailDetailsView {
        EmailDetailsView {
            mail_id: self.mail_id@,
            mail_from: self.mail_from@,
            mail_subject: self.mail_subject@,
            mail_date: self.mail_date@,
            mail_body: self.mail_body@,
            attachments: att_views(self.attachments@),
        }
    }
}

/// The summary a `list` entry decodes to: an object whose `mail_id`,
/// `mail_from`, `mail_subject` and `mail_date` fields are all strings.
pub open spec fn spec_message_of(v: JsonValue) -> Option<MessageView> {
    if str_field(v, "mail_id"@) is Some && str_field(v, "mail_from"@) is Some && str_field(
        v,
        "mail_subject"@,
    ) is Some && str_field(v, "mail_date"@) is Some {
        Some(
            MessageView {
                mail_id: str_field(v, "mail_id"@).unwrap(),
                mail_from: str_field(v, "mail_from"@).unwrap(),
                mail_subject: str_field(v, "mail_subject"@).unwrap(),
                mail_date: str_field(v, "mail_date"@).unwrap(),
            },
        )
    } else {
        None
    }
}

/// The attachment an entry decodes to: an object whose `file_name` and
/// `content_type` fields are both strings.
pub open spec fn spec_attachment_of(v: JsonValue) -> Option<AttachmentView> {
    if str_field(v, "file_name"@) is Some && str_field(v, "content_type"@) is Some {
        Some(
            AttachmentView {
                file_name: str_field(v, "file_name"@).unwrap(),
                content_type: str_field(v, "content_type"@).unwrap(),
            },
        )
    } else {
        None
    }
}

/// Strict decoding of an attachment array: every entry must decode.
pub open spec fn spec_attachments_of(items: Seq<JsonValue>) -> Option<Seq<AttachmentView>>
    decreases items.len(),
{
    if items.len() == 0 {
        Some(Seq::empty())
    } else {
        match (spec_attachments_of(items.drop_last()), spec_attachment_of(items.last())) {
            (Some(front), Some(a)) => Some(front.push(a)),
            _ => None,
        }
    }
}

/// Lenient decoding of a listing array: entries that do not decode are
/// dropped, the rest keep their order.
pub open spec fn spec_summaries_of(items: Seq<JsonValue>) -> Seq<MessageView>
    decreases items.len(),
{
    if items.len() == 0 {
        Seq::empty()
    } else {
        match spec_message_of(items.last()) {
            Some(m) => spec_summaries_of(items.drop_last()).push(m),
            None => spec_summaries_of(items.drop_last()),
        }
    }
}

/// How many entries of a listing array decode to a summary.
pub open spec fn count_decodable(items: Seq<JsonValue>) -> nat
    decreases items.len(),
{
    if items.len() == 0 {
        0
    } else {
        count_decodable(items.drop_last()) + (if spec_message_of(items.last()) is Some {
            1nat
        } else {
            0nat
        })
    }
}

/// A listing keeps exactly the well-formed entries: of an array with N
/// decodable and M undecodable entries, the decoded listing has exactly N
/// summaries — and an empty array yields an empty listing, not a failure.
pub proof fn lemma_listing_keeps_exactly_the_wellformed(items: Seq<JsonValue>)
    ensures
        spec_summaries_of(items).len() == count_decodable(items),
        items.len() == 0 ==> spec_summaries_of(items) == Seq::<MessageView>::empty(),
    decreases items.len(),
{
    if items.len() > 0 {
        lemma_listing_keeps_exactly_the_wellformed(items.drop_last());
    }
}

/// What a listing response yields: the decoded entries of its `list` array,
/// or nothing at all when the field is absent or not an array.
pub open spec fn spec_messages_of(v: JsonValue) -> Seq<MessageView> {
    match v {
        JsonValue::Object(fields) => match field_of(fields@, "list"@) {
            Some(JsonValue::Array(items)) => spec_summaries_of(items@),
            _ => Seq::empty(),
        },
        _ => Seq::empty(),
    }
}

/// The details a fetch response decodes to: the five string fields and a
/// strictly decoded `attachments` array.
pub open spec fn spec_details_of(v: JsonValue) -> Option<EmailDetailsView> {
    if spec_message_of(v) is Some && str_field(v, "mail_body"@) is Some && spec_details_att(
        v,
    ) is Some {
        Some(
            EmailDetailsView {
                mail_id: str_field(v, "mail_id"@).unwrap(),
                mail_from: str_field(v, "mail_from"@).unwrap(),
                mail_subject: str_field(v, "mail_subject"@).unwrap(),
                mail_date: str_field(v, "mail_date"@).unwrap(),
                mail_body: str_field(v, "mail_body"@).unwrap(),
                attachments: spec_details_att(v).unwrap(),
            },
        )
    } else {
        None
    }
}

/// The strictly decoded `attachments` array of a fetch response, if the
/// field is present, an array, and every entry decodes.
pub open spec fn spec_details_att(v: JsonValue) -> Option<Seq<AttachmentView>> {
    match v {
        JsonValue::Object(fields) => match field_of(fields@, "attachments"@) {
            Some(JsonValue::Array(items)) => spec_attachments_of(items@),
            _ => None,
        },
        _ => None,
    }
}

/// Decode one listing entry, or report that it has no summary shape.
pub fn message_from_json(v: &JsonValue) -> (r: Option<Message>)
    ensures
        match r {
            Some(m) => spec_message_of(*v) == Some(m@),
            None => spec_message_of(*v) is None,
        },
{
    let mail_id = get_str_field(v, "mail_id");
    let mail_from = get_str_field(v, "mail_from");
    let mail_subject = get_str_field(v, "mail_subject");
    let mail_date = get_str_field(v, "mail_date");
    match (mail_id, mail_from, mail_subject, mail_date) {
        (Some(mail_id), Some(mail_from), Some(mail_subject), Some(mail_date)) => {
            let m = Message { mail_id, mail_from, mail_subject, mail_date };
            proof {
                assert(spec_message_of(*v).unwrap() =~= m@);
            }
            Some(m)
        },
        _ => None,
    }
}

/// Decode one attachment entry, or report that it has no attachment shape.
pub fn attachment_from_json(v: &JsonValue) -> (r: Option<Attachment>)
    ensures
        match r {
            Some(a) => spec_attachment_of(*v) == Some(a@),
            None => spec_attachment_of(*v) is None,
        },
{
    let file_name = get_str_field(v, "file_name");
    let content_type = get_str_field(v, "content_type");
    match (file_name, content_type) {
        (Some(file_name), Some(content_type)) => {
            let a = Attachment { file_name, content_type };
            proof {
                assert(spec_attachment_of(*v).unwrap() =~= a@);
            }
            Some(a)
        },
        _ => None,
    }
}

proof fn lemma_attachments_entry_none(items: Seq<JsonValue>, i: int)
    requires
        0 <= i < items.len(),
        spec_attachment_of(items[i]) is None,
    ensures
        spec_attachments_of(items) is None,
    decreases items.len(),
{
    if i == items.len() - 1 {
    } else {
        assert(items.drop_last()[i] == items[i]);
        lemma_attachments_entry_none(items.drop_last(), i);
    }
}

/// Decode a whole attachment array strictly: every entry must decode, in
/// order.
pub fn attachments_from_json(items: &Vec<JsonValue>) -> (r: Option<Vec<Attachment>>)
    ensures
        match r {
            Some(atts) => spec_attachments_of(items@) == Some(att_views(atts@)),
            None => spec_attachments_of(items@) is None,
        },
{
    let n = items.len();
    let mut out: Vec<Attachment> = Vec::new();
    let mut i: usize = 0;
    while i < n
        invariant
            i <= n,
            n == items@.len(),
            spec_attachments_of(items@.take(i as int)) == Some(att_views(out@)),
        decreases n - i,
    {
        match attachment_from_json(&items[i]) {
            Some(a) => {
                let ghost prev = att_views(out@);
                let ghost av = a@;
                out.push(a);
                proof {
                    assert(items@.take(i as int + 1).drop_last() =~= items@.take(i as int));
                    assert(items@.take(i as int + 1).last() == items@[i as int]);
                    assert(att_views(out@) =~= prev.push(av));
                }
            },
            None => {
                proof {
                    lemma_attachments_entry_none(items@, i as int);
                }
                return None;
            },
        }
        i = i + 1;
    }
    proof {
        assert(items@.take(n as int) =~= items@);
    }
    Some(out)
}

/// Decode a whole listing array leniently: entries without the summary
/// shape are dropped, the rest keep their order.
pub fn messages_from_array(items: &Vec<JsonValue>) -> (r: Vec<Message>)
    ensures
        msg_views(r@) == spec_summaries_of(items@),
{
    let n = items.len();
    let mut out: Vec<Message> = Vec::new();
    let mut i: usize = 0;
    while i < n
        invariant
            i <= n,
            n == items@.len(),
            msg_views(out@) == spec_summaries_of(items@.take(i as int)),
        decreases n - i,
    {
        proof {
            assert(items@.take(i as int + 1).drop_last() =~= items@.take(i as int));
            assert(items@.take(i as int + 1).last() == items@[i as int]);
        }
        match message_from_json(&items[i]) {
            Some(m) => {
                let ghost prev = msg_views(out@);
                let ghost mv = m@;
                out.push(m);
                proof {
                    assert(msg_views(out@) =~= prev.push(mv));
                }
            },
            None => {},
        }
        i = i + 1;
    }
    proof {
        assert(items@.take(n as int) =~= items@);
    }
    out
}

/// Decode a whole listing response: the lenient decode of its `list` array,
/// or an empty listing when the field is absent or not an array.
pub fn messages_from_json(v: &JsonValue) -> (r: Vec<Message>)
    ensures
        msg_views(r@) == spec_messages_of(*v),
{
    match get_field(v, "list") {
        Some(f) => match f {
            JsonValue::Array(items) => messages_from_array(items),
            _ => Vec::new(),
        },
        None => Vec::new(),
    }
}

/// Decode a whole fetch response strictly, or report that it has no
/// fetched-message shape.
pub fn details_from_json(v: &JsonValue) -> (r: Option<EmailDetails>)
    ensures
        match r {
            Some(d) => spec_details_of(*v) == Some(d@),
            None => spec_details_of(*v) is None,
        },
{
    let summary = match message_from_json(v) {
        Some(m) => m,
        None => {
            return None;
        },
    };
    let mail_body = match get_str_field(v, "mail_body") {
        Some(b) => b,
        None => {
            return None;
        },
    };
    let attachments = match get_field(v, "attachments") {
        Some(f) => match f {
            JsonValue::Array(items) => match attachments_from_json(items) {
                Some(atts) => atts,
                None => {
                    return None;
                },
            },
            _ => {
                return None;
            },
        },
        None => {
            return None;
        },
    };
    let d = EmailDetails {
        mail_id: summary.mail_id,
        mail_from: summary.mail_from,
        mail_subject: summary.mail_subject,
        mail_date: summary.mail_date,
        mail_body,
        attachments,
    };
    proof {
        assert(spec_details_of(*v).unwrap() =~= d@);
    }
    Some(d)
}

} // verus!

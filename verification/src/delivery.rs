//! Decisions of the frame listener: whether a received frame is forwarded,
//! and to which chats and in which form.
//!
//! A frame goes out only when some user is active and the frame is an image.
//! It is first uploaded to the first active chat; when that upload yields a
//! file id, the other chats get the picture by that id, otherwise every
//! active chat gets its own copy.

use vstd::prelude::*;
use crate::decimal::{parse_i64, parse_i64_spec};
use crate::image::{is_image, is_image_data};

verus! {

/// The chat ids that the stored ids parse to, in order; ids that are not
/// decimal `i64` text are left out.
pub open spec fn parsed_chat_ids(ids: Seq<String>) -> Seq<i64>
    decreases ids.len(),
{
    if ids.len() == 0 {
        Seq::empty()
    } else {
        match parse_i64_spec(ids[0]@) {
            Some(c) => seq![c] + parsed_chat_ids(ids.drop_first()),
            None => parsed_chat_ids(ids.drop_first()),
        }
    }
}

/// The chats that get the picture by file id after a successful upload: every
/// active chat but the first.
pub open spec fn file_id_recipients(ids: Seq<String>) -> Seq<i64> {
    if ids.len() == 0 {
        Seq::empty()
    } else {
        parsed_chat_ids(ids.drop_first())
    }
}

/// The first file id of the uploaded photo, if the upload produced one.
pub open spec fn uploaded_file_id(photo_file_ids: Option<Seq<String>>) -> Option<String> {
    match photo_file_ids {
        Some(v) => if v.len() > 0 {
            Some(v[0])
        } else {
            None
        },
        None => None,
    }
}

/// What to do with a received frame.
#[derive(Debug)]
pub enum FrameDecision {
    /// Nobody is active: the frame is dropped.
    NoActiveUsers,
    /// The frame is not an image: it is dropped.
    NotAnImage,
    /// Upload the frame to this chat first, to obtain a file id.
    Upload { chat_id: i64 },
    /// Send a copy of the frame to each of these chats.
    SendCopies { chat_ids: Vec<i64> },
}

/// How the remaining chats get the frame after the upload attempt.
#[derive(Debug)]
pub enum Delivery {
    /// Send the uploaded file by its id to each of these chats.
    ByFileId { file_id: String, chat_ids: Vec<i64> },
    /// Send a copy of the frame to each of these chats.
    Copies { chat_ids: Vec<i64> },
}

/// The chat ids that the stored ids from index `from` on parse to.
pub fn parse_chat_ids(ids: &Vec<String>, from: usize) -> (r: Vec<i64>)
    requires
        from <= ids@.len(),
    ensures
        r@ == parsed_chat_ids(ids@.subrange(from as int, ids@.len() as int)),
{
    let n = ids.len();
    let mut out: Vec<i64> = Vec::new();
    let mut i = from;
    while i < n
        invariant
            n == ids@.len(),
            from <= i <= n,
            out@ + parsed_chat_ids(ids@.subrange(i as int, n as int)) == parsed_chat_ids(
                ids@.subrange(from as int, n as int),
            ),
        decreases n - i,
    {
        let ghost rest = ids@.subrange(i as int, n as int);
        assert(rest.drop_first() =~= ids@.subrange(i + 1, n as int));
        assert(rest[0] == ids@[i as int]);
        match parse_i64(ids[i].as_str()) {
            Some(c) => {
                out.push(c);
                assert(out@ + parsed_chat_ids(ids@.subrange(i + 1, n as int)) =~= out@.drop_last()
                    + parsed_chat_ids(rest));
            },
            None => {},
        }
        i = i + 1;
    }
    assert(ids@.subrange(n as int, n as int) =~= Seq::<String>::empty());
    assert(out@ + Seq::<i64>::empty() =~= out@);
    out
}

/// Decides what happens to a received frame, given the active chat ids.
pub fn decide_frame(active_ids: &Vec<String>, frame: &[u8]) -> (d: FrameDecision)
    ensures
        active_ids@.len() == 0 ==> d is NoActiveUsers,
        active_ids@.len() > 0 && !is_image_data(frame@) ==> d is NotAnImage,
        active_ids@.len() > 0 && is_image_data(frame@) ==> match parse_i64_spec(active_ids@[0]@) {
            Some(c) => d == (FrameDecision::Upload { chat_id: c }),
            None => d matches FrameDecision::SendCopies { chat_ids } && chat_ids@
                == parsed_chat_ids(active_ids@),
        },
{
    if active_ids.len() == 0 {
        return FrameDecision::NoActiveUsers;
    }
    if !is_image(frame) {
        return FrameDecision::NotAnImage;
    }
    match parse_i64(active_ids[0].as_str()) {
        Some(c) => FrameDecision::Upload { chat_id: c },
        None => {
            let chat_ids = parse_chat_ids(active_ids, 0);
            assert(active_ids@.subrange(0, active_ids@.len() as int) =~= active_ids@);
            FrameDecision::SendCopies { chat_ids }
        },
    }
}

/// Decides how the frame reaches the chats once the upload to the first chat
/// has been tried: `photo_file_ids` are the file ids of the photo in the
/// reply to the upload, or `None` when the upload failed or the reply holds
/// no photo.
pub fn decide_after_upload(active_ids: &Vec<String>, photo_file_ids: Option<Vec<String>>) -> (d: Delivery)
    ensures
        match uploaded_file_id(
            match photo_file_ids {
                Some(v) => Some(v@),
                None => None,
            },
        ) {
            Some(f) => d matches Delivery::ByFileId { file_id, chat_ids } && file_id == f
                && chat_ids@ == file_id_recipients(active_ids@),
            None => d matches Delivery::Copies { chat_ids } && chat_ids@ == parsed_chat_ids(
                active_ids@,
            ),
        },
        photo_file_ids is Some && photo_file_ids->0@.len() > 0 ==> (d matches Delivery::ByFileId {
            file_id,
            chat_ids,
        } && file_id == photo_file_ids->0@[0] && (active_ids@.len() > 0 ==> chat_ids@ == parsed_chat_ids(
            active_ids@.subrange(1, active_ids@.len() as int),
        ))),
        (photo_file_ids is None || photo_file_ids->0@.len() == 0) ==> (d matches Delivery::Copies {
            chat_ids,
        } && chat_ids@ == parsed_chat_ids(active_ids@)),
{
    let first: Option<String> = match photo_file_ids {
        Some(v) => if v.len() > 0 {
            Some(v[0].clone())
        } else {
            None
        },
        None => None,
    };
    match first {
        Some(file_id) => {
            if active_ids.len() == 0 {
                return Delivery::ByFileId { file_id, chat_ids: Vec::new() };
            }
            let chat_ids = parse_chat_ids(active_ids, 1);
            assert(active_ids@.subrange(1, active_ids@.len() as int) =~= active_ids@.drop_first());
            Delivery::ByFileId { file_id, chat_ids }
        },
        None => {
            let chat_ids = parse_chat_ids(active_ids, 0);
            assert(active_ids@.subrange(0, active_ids@.len() as int) =~= active_ids@);
            Delivery::Copies { chat_ids }
        },
    }
}

/// Parsing a list of stored ids splits over concatenation.
pub proof fn lemma_parsed_concat(a: Seq<String>, b: Seq<String>)
    ensures
        parsed_chat_ids(a + b) == parsed_chat_ids(a) + parsed_chat_ids(b),
    decreases a.len(),
{
    if a.len() == 0 {
        assert(a + b =~= b);
        assert(parsed_chat_ids(a) + parsed_chat_ids(b) =~= parsed_chat_ids(b));
    } else {
        assert((a + b).drop_first() =~= a.drop_first() + b);
        assert((a + b)[0] == a[0]);
        lemma_parsed_concat(a.drop_first(), b);
        match parse_i64_spec(a[0]@) {
            Some(c) => {
                assert(seq![c] + (parsed_chat_ids(a.drop_first()) + parsed_chat_ids(b)) =~= (seq![c]
                    + parsed_chat_ids(a.drop_first())) + parsed_chat_ids(b));
            },
            None => {},
        }
    }
}

/// A single stored id contributes the chat id it parses to, or nothing.
pub proof fn lemma_parsed_single(s: String)
    ensures
        parsed_chat_ids(seq![s]) == match parse_i64_spec(s@) {
            Some(c) => seq![c],
            None => Seq::<i64>::empty(),
        },
{
    assert(seq![s].drop_first() =~= Seq::<String>::empty());
    assert(parsed_chat_ids(Seq::<String>::empty()) =~= Seq::<i64>::empty());
    match parse_i64_spec(s@) {
        Some(c) => {
            assert(seq![c] + Seq::<i64>::empty() =~= seq![c]);
        },
        None => {},
    }
}

/// When the upload reply holds at least one photo file id, however many, the
/// frame goes on by the first of them to exactly the parsed active chats after
/// the first one; with the upload recipient in front, these are all parsed
/// active chats, so the first chat is not sent the frame again.
pub proof fn lemma_reply_with_photo_sends_by_first_id(ids: Seq<String>, v: Seq<String>)
    requires
        v.len() > 0,
        ids.len() > 0,
    ensures
        uploaded_file_id(Some(v)) == Some(v[0]),
        file_id_recipients(ids) == parsed_chat_ids(ids.subrange(1, ids.len() as int)),
        parsed_chat_ids(ids) == parsed_chat_ids(seq![ids[0]]) + file_id_recipients(ids),
{
    assert(ids.drop_first() =~= ids.subrange(1, ids.len() as int));
    assert(seq![ids[0]] + ids.drop_first() =~= ids);
    lemma_parsed_concat(seq![ids[0]], ids.drop_first());
}

/// Every active chat whose id parses gets the frame exactly once, in order:
/// after an upload to the first chat, the file-id recipients are precisely
/// the remaining parsed chats.
pub proof fn lemma_upload_then_file_id_covers_all(ids: Seq<String>)
    requires
        ids.len() > 0,
        parse_i64_spec(ids[0]@) is Some,
    ensures
        seq![parse_i64_spec(ids[0]@).unwrap()] + file_id_recipients(ids) == parsed_chat_ids(ids),
{
}

} // verus!

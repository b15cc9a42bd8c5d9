//! Rendering a status snapshot into the channel update that a monitor
//! service publishes by editing its anchor message.

use crate::status::spec_offline_snapshot;
use crate::status::spec_snapshot_of;
use crate::status::offline_snapshot;
use crate::status::parse_status_payload;
use crate::status::SnapshotView;
use crate::status::StatusError;
use crate::status::StatusSnapshot;
use crate::status::json_wf;
use crate::status::status_document_of;
use crate::text::decimal_string;
use crate::text::spec_decimal;
use vstd::prelude::*;
use vstd::string::StringExecFns;

verus! {

/// Accent colour of an online status field.
pub const COLOR_ONLINE: u32 = 0x42F56C;

/// Accent colour of an offline status field.
pub const COLOR_OFFLINE: u32 = 0xE74C3C;

/// What to do about the attached favicon image.
#[derive(Debug)]
pub enum AttachmentAction {
    /// Attach these image bytes; the favicon changed or nothing was
    /// attached yet.
    Upload(Vec<u8>),
    /// Keep the attachment already on the anchor message.
    Keep,
    /// No image at all.
    NoImage,
}

/// Mathematical value of an `AttachmentAction`.
pub enum AttachmentActionView {
    Upload(Seq<u8>),
    Keep,
    NoImage,
}

impl View for AttachmentAction {
    type V = AttachmentActionView;

    open spec fn view(&self) -> AttachmentActionView {
        match *self {
            AttachmentAction::Upload(ref b) => AttachmentActionView::Upload(b@),
            AttachmentAction::Keep => AttachmentActionView::Keep,
            AttachmentAction::NoImage => AttachmentActionView::NoImage,
        }
    }
}

/// One update of the anchor message: the embed fields and the attachment
/// decision.
#[derive(Debug)]
pub struct ChannelUpdate {
    pub title: String,
    pub status_field: String,
    pub color: u32,
    pub players_field: String,
    pub version_field: String,
    pub sample_field: String,
    pub attachment: AttachmentAction,
}

/// Mathematical value of a `ChannelUpdate`.
pub struct UpdateView {
    pub title: Seq<char>,
    pub status_field: Seq<char>,
    pub color: u32,
    pub players_field: Seq<char>,
    pub version_field: Seq<char>,
    pub sample_field: Seq<char>,
    pub attachment: AttachmentActionView,
}

impl View for ChannelUpdate {
    type V = UpdateView;

    open spec fn view(&self) -> UpdateView {
        UpdateView {
            title: self.title@,
            status_field: self.status_field@,
            color: self.color,
            players_field: self.players_field@,
            version_field: self.version_field@,
            sample_field: self.sample_field@,
            attachment: self.attachment@,
        }
    }
}

/// The attachment decision: a favicon is uploaded only when it differs
/// from the previously published one or nothing is attached yet; otherwise
/// the existing attachment is kept by reference.
pub open spec fn spec_attachment(
    favicon: Option<Seq<u8>>,
    prev: Option<Seq<u8>>,
    has_attachment: bool,
) -> AttachmentActionView {
    match favicon {
        Some(b) => if !has_attachment || prev != Some(b) {
            AttachmentActionView::Upload(b)
        } else {
            AttachmentActionView::Keep
        },
        None => if has_attachment {
            AttachmentActionView::Keep
        } else {
            AttachmentActionView::NoImage
        },
    }
}

/// The favicon remembered for the next cycle: the bytes just uploaded, or
/// the previous ones when nothing new was uploaded.
pub open spec fn spec_next_favicon(
    favicon: Option<Seq<u8>>,
    prev: Option<Seq<u8>>,
    has_attachment: bool,
) -> Option<Seq<u8>> {
    match favicon {
        Some(b) => if !has_attachment || prev != Some(b) {
            Some(b)
        } else {
            prev
        },
        None => prev,
    }
}

/// The update rendered from a snapshot: the configured display name as
/// title, ONLINE/OFFLINE with its accent colour, the player counts as
/// `count/max`, the version, the sample of online names, and the
/// attachment decision.
pub open spec fn spec_render(
    name: Seq<char>,
    snap: SnapshotView,
    prev: Option<Seq<u8>>,
    has_attachment: bool,
) -> UpdateView {
    UpdateView {
        title: name,
        status_field: if snap.online {
            "ONLINE"@
        } else {
            "OFFLINE"@
        },
        color: if snap.online {
            COLOR_ONLINE
        } else {
            COLOR_OFFLINE
        },
        players_field: spec_decimal(snap.player_count as int) + "/"@ + spec_decimal(
            snap.player_max as int,
        ),
        version_field: snap.version,
        sample_field: snap.sample,
        attachment: spec_attachment(snap.favicon, prev, has_attachment),
    }
}

/// Whether two byte strings hold the same bytes.
fn bytes_eq(a: &Vec<u8>, b: &Vec<u8>) -> (r: bool)
    ensures
        r <==> a@ == b@,
{
    if a.len() != b.len() {
        return false;
    }
    let n = a.len();
    let mut i: usize = 0;
    while i < n
        invariant
            0 <= i <= n,
            n == a@.len() == b@.len(),
            forall|j: int| 0 <= j < i ==> a@[j] == b@[j],
        decreases n - i,
    {
        if a[i] != b[i] {
            return false;
        }
        i = i + 1;
    }
    proof {
        assert(a@ =~= b@);
    }
    true
}

/// A fresh vector with the same bytes.
fn copy_byte_vec(v: &Vec<u8>) -> (r: Vec<u8>)
    ensures
        r@ == v@,
{
    let mut out: Vec<u8> = Vec::new();
    let n = v.len();
    let mut i: usize = 0;
    while i < n
        invariant
            0 <= i <= n == v@.len(),
            out@ =~= v@.subrange(0, i as int),
        decreases n - i,
    {
        out.push(v[i]);
        i = i + 1;
    }
    proof {
        assert(out@ =~= v@);
    }
    out
}

/// A fresh copy of optional favicon bytes.
fn copy_favicon(v: &Option<Vec<u8>>) -> (r: Option<Vec<u8>>)
    ensures
        r.deep_view() == v.deep_view(),
{
    match v {
        None => None,
        Some(b) => Some(copy_byte_vec(b)),
    }
}

/// Renders a snapshot into the channel update and the favicon to remember
/// for the next cycle.
pub fn render_update(
    name: &str,
    snap: StatusSnapshot,
    prev: &Option<Vec<u8>>,
    has_attachment: bool,
) -> (r: (ChannelUpdate, Option<Vec<u8>>))
    ensures
        r.0@ == spec_render(name@, snap@, prev.deep_view(), has_attachment),
        r.1.deep_view() == spec_next_favicon(snap@.favicon, prev.deep_view(), has_attachment),
{
    let status_field = if snap.online {
        String::from_str("ONLINE")
    } else {
        String::from_str("OFFLINE")
    };
    let color = if snap.online {
        COLOR_ONLINE
    } else {
        COLOR_OFFLINE
    };
    let players_field = decimal_string(snap.player_count).concat("/").concat(
        decimal_string(snap.player_max).as_str(),
    );
    proof {
        assert(players_field@ =~= spec_decimal(snap.player_count as int) + "/"@ + spec_decimal(
            snap.player_max as int,
        ));
    }
    let (attachment, next_favicon): (AttachmentAction, Option<Vec<u8>>) = match snap.favicon {
        Some(b) => {
            let same = match prev {
                Some(p) => bytes_eq(&b, p),
                None => false,
            };
            proof {
                if (*prev) is Some {
                    assert((*prev)->Some_0.deep_view() =~= (*prev)->Some_0@);
                }
            }
            if !has_attachment || !same {
                let remembered = copy_byte_vec(&b);
                (AttachmentAction::Upload(b), Some(remembered))
            } else {
                (AttachmentAction::Keep, copy_favicon(prev))
            }
        },
        None => {
            if has_attachment {
                (AttachmentAction::Keep, copy_favicon(prev))
            } else {
                (AttachmentAction::NoImage, copy_favicon(prev))
            }
        },
    };
    let update = ChannelUpdate {
        title: name.to_owned(),
        status_field,
        color,
        players_field,
        version_field: snap.version,
        sample_field: snap.sample,
        attachment,
    };
    (update, next_favicon)
}

/// One poll cycle's decision: an unreachable target renders the offline
/// snapshot; a payload that is well-formed JSON renders the parsed
/// snapshot; anything else is the malformed-response error that ends the
/// service.
pub fn poll_cycle(
    name: &str,
    payload: Option<&Vec<u8>>,
    prev: &Option<Vec<u8>>,
    has_attachment: bool,
) -> (r: Result<(ChannelUpdate, Option<Vec<u8>>), StatusError>)
    ensures
        payload is None ==> (r matches Ok(u) && u.0@ == spec_render(
            name@,
            spec_offline_snapshot(),
            prev.deep_view(),
            has_attachment,
        ) && u.1.deep_view() == prev.deep_view()),
        payload matches Some(b) ==> ((r is Err) <==> !json_wf(b@)),
        r matches Err(e) ==> e == StatusError::MalformedResponse,
        payload is Some && json_wf(payload->Some_0@) ==> (r matches Ok(u) && u.0@ == spec_render(
            name@,
            spec_snapshot_of(status_document_of(payload->Some_0@)),
            prev.deep_view(),
            has_attachment,
        ) && u.1.deep_view() == spec_next_favicon(
            spec_snapshot_of(status_document_of(payload->Some_0@)).favicon,
            prev.deep_view(),
            has_attachment,
        )),
{
    match payload {
        None => {
            let snap = offline_snapshot();
            let r = render_update(name, snap, prev, has_attachment);
            proof {
                assert(spec_next_favicon(
                    spec_offline_snapshot().favicon,
                    prev.deep_view(),
                    has_attachment,
                ) == prev.deep_view());
            }
            Ok(r)
        },
        Some(bytes) => {
            match parse_status_payload(bytes.as_slice()) {
                Err(e) => Err(e),
                Ok(snap) => Ok(render_update(name, snap, prev, has_attachment)),
            }
        },
    }
}

/// The attachment state after publishing an update: an upload leaves an
/// attachment on the anchor message, keeping retains whatever was there,
/// and publishing without an image leaves none.
pub open spec fn spec_next_attachment_state(
    action: AttachmentActionView,
    has_attachment: bool,
) -> bool {
    match action {
        AttachmentActionView::Upload(_) => true,
        AttachmentActionView::Keep => has_attachment,
        AttachmentActionView::NoImage => false,
    }
}

/// Whether the anchor message holds an attachment after an update with
/// this attachment decision was published.
pub fn next_attachment_state(action: &AttachmentAction, has_attachment: bool) -> (r: bool)
    ensures
        r == spec_next_attachment_state(action@, has_attachment),
{
    match action {
        AttachmentAction::Upload(_) => true,
        AttachmentAction::Keep => has_attachment,
        AttachmentAction::NoImage => false,
    }
}

} // verus!

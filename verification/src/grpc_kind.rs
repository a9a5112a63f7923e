//! The two flavours of request that the proxy forwards, told apart by the
//! `Content-Type` of the request, and what each rewrites on the way to the
//! upstream and back.

use crate::headers::{
    ascii, has_room, header_fields, new_value, try_set, unset, values_of, HeadersFull,
};
use crate::text::{ascii_bytes, starts_with};
use crate::trailers::{is_encodable, terminal_frame, Trailers};
use vstd::prelude::*;

verus! {

/// The flavour of a forwarded request.
#[derive(Clone, Copy, Debug, PartialEq, Eq, Structural)]
pub enum GrpcKind {
    /// Native gRPC: forwarded as it is.
    Plain,
    /// gRPC-Web: the upstream is spoken to in native gRPC.
    Web,
}

/// The rules for native gRPC: nothing is rewritten.
#[derive(Clone, Copy, Debug)]
pub struct GrpcKindPlain;

/// The rules for gRPC-Web.
#[derive(Clone, Copy, Debug)]
pub struct GrpcKindWeb;

/// One frame of a body: a piece of data, or the trailers that end it.
#[derive(Debug, PartialEq, Eq)]
pub enum BodyFrame {
    Data(Vec<u8>),
    Trailers(http::HeaderMap<http::HeaderValue>),
}

/// What a frame holds.
pub enum FrameView {
    Data(Seq<u8>),
    Trailers(Seq<(Seq<u8>, Seq<u8>)>),
}

impl View for BodyFrame {
    type V = FrameView;

    open spec fn view(&self) -> FrameView {
        match self {
            BodyFrame::Data(bytes) => FrameView::Data(bytes@),
            BodyFrame::Trailers(block) => FrameView::Trailers(header_fields(*block)),
        }
    }
}

/// The content type of native gRPC, and the prefix by which it is known.
pub open spec fn grpc_type() -> Seq<u8> {
    ascii("application/grpc"@)
}

/// The prefix by which a gRPC-Web content type is known.
pub open spec fn grpc_web_type() -> Seq<u8> {
    ascii("application/grpc-web"@)
}

/// The content type that a gRPC-Web client is answered with.
pub open spec fn grpc_web_proto_type() -> Seq<u8> {
    ascii("application/grpc-web+proto"@)
}

/// The name of the `Content-Type` field.
pub open spec fn content_type_name() -> Seq<u8> {
    ascii("content-type"@)
}

/// The name of the `Content-Length` field.
pub open spec fn content_length_name() -> Seq<u8> {
    ascii("content-length"@)
}

/// The flavour that a content type stands for, if any: gRPC-Web where it
/// begins with the gRPC-Web prefix, native gRPC where it begins with the
/// gRPC prefix alone.
pub open spec fn classify(content_type: Seq<u8>) -> Option<GrpcKind> {
    if grpc_web_type().is_prefix_of(content_type) {
        Some(GrpcKind::Web)
    } else if grpc_type().is_prefix_of(content_type) {
        Some(GrpcKind::Plain)
    } else {
        None
    }
}

/// `after` is the header block of a gRPC-Web request as the upstream gets
/// it: the content type of native gRPC, no content length, and every other
/// field as in `before`.
pub open spec fn is_web_request(
    before: Seq<(Seq<u8>, Seq<u8>)>,
    after: Seq<(Seq<u8>, Seq<u8>)>,
) -> bool {
    forall|n: Seq<u8>| #[trigger]
        values_of(after, n) == if n == content_type_name() {
            seq![grpc_type()]
        } else if n == content_length_name() {
            Seq::<Seq<u8>>::empty()
        } else {
            values_of(before, n)
        }
}

/// `after` is the header block of the answer that a gRPC-Web client gets:
/// the gRPC-Web content type, and every other field as in `before`.
pub open spec fn is_web_response(
    before: Seq<(Seq<u8>, Seq<u8>)>,
    after: Seq<(Seq<u8>, Seq<u8>)>,
) -> bool {
    forall|n: Seq<u8>| #[trigger]
        values_of(after, n) == if n == content_type_name() {
            seq![grpc_web_proto_type()]
        } else {
            values_of(before, n)
        }
}

/// A frame as a gRPC-Web client gets it: trailers travel as the data of
/// their terminal frame.
pub open spec fn web_frame(frame: FrameView) -> FrameView {
    match frame {
        FrameView::Data(bytes) => FrameView::Data(bytes),
        FrameView::Trailers(t) => FrameView::Data(terminal_frame(t)),
    }
}

/// `after` is the header block `before` of a request, rewritten for the
/// upstream by the rules of `kind`.
pub open spec fn request_rewritten(
    kind: GrpcKind,
    before: Seq<(Seq<u8>, Seq<u8>)>,
    after: Seq<(Seq<u8>, Seq<u8>)>,
) -> bool {
    match kind {
        GrpcKind::Plain => after == before,
        GrpcKind::Web => is_web_request(before, after),
    }
}

/// `after` is the header block `before` of an answer, rewritten for the
/// client by the rules of `kind`.
pub open spec fn response_rewritten(
    kind: GrpcKind,
    before: Seq<(Seq<u8>, Seq<u8>)>,
    after: Seq<(Seq<u8>, Seq<u8>)>,
) -> bool {
    match kind {
        GrpcKind::Plain => after == before,
        GrpcKind::Web => is_web_response(before, after),
    }
}

/// A frame of an answer's body as the client of a `kind` request gets it.
pub open spec fn frame_rewritten(kind: GrpcKind, frame: FrameView) -> FrameView {
    match kind {
        GrpcKind::Plain => frame,
        GrpcKind::Web => web_frame(frame),
    }
}

/// The data bytes that a sequence of frames carries, in order.
pub open spec fn payload(frames: Seq<FrameView>) -> Seq<u8>
    decreases frames.len(),
{
    if frames.len() == 0 {
        Seq::empty()
    } else {
        payload(frames.drop_last()) + match frames.last() {
            FrameView::Data(bytes) => bytes,
            FrameView::Trailers(_) => Seq::empty(),
        }
    }
}

impl GrpcKindPlain {
    /// Leaves the header block of an answer as it is.
    pub fn modify_response(&self, headers: &mut http::HeaderMap<http::HeaderValue>)
        ensures
            header_fields(*final(headers)) == header_fields(*old(headers)),
    {
    }

    /// Leaves a frame of an answer's body as it is.
    pub fn modify_frame(&self, frame: BodyFrame) -> (out: BodyFrame)
        ensures
            out@ == frame@,
    {
        frame
    }
}

impl GrpcKindWeb {
    /// Rewrites the header block of a request for the upstream: the content
    /// type becomes that of native gRPC and the content length goes. Where
    /// the block cannot take the new field it is left as it was; a block
    /// that has room always takes it.
    pub fn modify_request(&self, headers: &mut http::HeaderMap<http::HeaderValue>) -> (done:
        Result<(), HeadersFull>)
        ensures
            has_room(header_fields(*old(headers))) ==> done.is_ok(),
            done.is_ok() ==> is_web_request(
                header_fields(*old(headers)),
                header_fields(*final(headers)),
            ),
            done.is_err() ==> header_fields(*final(headers)) == header_fields(*old(headers)),
    {
        proof {
            reveal_strlit("application/grpc");
            reveal_strlit("content-type");
            reveal_strlit("content-length");
        }
        let value = new_value(ascii_bytes("application/grpc")).unwrap();
        if !try_set(headers, "content-type", value) {
            return Err(HeadersFull);
        }
        unset(headers, "content-length");
        assert(content_type_name().len() != content_length_name().len());
        Ok(())
    }

    /// Rewrites the header block of an answer for the client: the content
    /// type becomes the gRPC-Web one, every other field stays. Where the
    /// block cannot take the new field it is left as it was; a block that
    /// has room always takes it.
    pub fn modify_response(&self, headers: &mut http::HeaderMap<http::HeaderValue>) -> (done:
        Result<(), HeadersFull>)
        ensures
            has_room(header_fields(*old(headers))) ==> done.is_ok(),
            done.is_ok() ==> is_web_response(
                header_fields(*old(headers)),
                header_fields(*final(headers)),
            ),
            done.is_err() ==> header_fields(*final(headers)) == header_fields(*old(headers)),
    {
        proof {
            reveal_strlit("application/grpc-web+proto");
            reveal_strlit("content-type");
        }
        let value = new_value(ascii_bytes("application/grpc-web+proto")).unwrap();
        if try_set(headers, "content-type", value) {
            Ok(())
        } else {
            Err(HeadersFull)
        }
    }

    /// Rewrites one frame of an answer's body for the client: a trailers
    /// frame becomes a data frame that holds the terminal frame of those
    /// trailers, a data frame stays. `None` where the trailers are too long
    /// for a terminal frame.
    pub fn modify_frame(&self, frame: BodyFrame) -> (out: Option<BodyFrame>)
        ensures
            out.is_some() == (frame@ matches FrameView::Trailers(t) ==> is_encodable(t)),
            out matches Some(f) ==> f@ == web_frame(frame@),
    {
        match frame {
            BodyFrame::Data(bytes) => Some(BodyFrame::Data(bytes)),
            BodyFrame::Trailers(block) => {
                match Trailers::new(block).into_to_frame() {
                    Some(bytes) => Some(BodyFrame::Data(bytes)),
                    None => None,
                }
            },
        }
    }
}

impl GrpcKind {
    /// The flavour of a request with this `Content-Type`, or `None` where the
    /// request is to be rejected.
    pub fn from_content_type(content_type: &[u8]) -> (kind: Option<GrpcKind>)
        ensures
            kind == classify(content_type@),
    {
        proof {
            reveal_strlit("application/grpc-web");
            reveal_strlit("application/grpc");
        }
        if starts_with(content_type, ascii_bytes("application/grpc-web")) {
            Some(GrpcKind::Web)
        } else if starts_with(content_type, ascii_bytes("application/grpc")) {
            Some(GrpcKind::Plain)
        } else {
            None
        }
    }

    /// Rewrites the header block of a request for the upstream by the rules
    /// of this flavour. Native gRPC never fails; gRPC-Web fails only where
    /// the block cannot take the new field, never on a block that has room.
    pub fn rewrite_request(&self, headers: &mut http::HeaderMap<http::HeaderValue>) -> (done:
        Result<(), HeadersFull>)
        ensures
            *self == GrpcKind::Plain || has_room(header_fields(*old(headers))) ==> done.is_ok(),
            done.is_ok() ==> request_rewritten(
                *self,
                header_fields(*old(headers)),
                header_fields(*final(headers)),
            ),
            done.is_err() ==> header_fields(*final(headers)) == header_fields(*old(headers)),
    {
        match self {
            GrpcKind::Plain => Ok(()),
            GrpcKind::Web => GrpcKindWeb.modify_request(headers),
        }
    }

    /// Rewrites the header block of an answer for the client by the rules of
    /// this flavour. Native gRPC never fails; gRPC-Web fails only where the
    /// block cannot take the new field, never on a block that has room.
    pub fn rewrite_response(&self, headers: &mut http::HeaderMap<http::HeaderValue>) -> (done:
        Result<(), HeadersFull>)
        ensures
            *self == GrpcKind::Plain || has_room(header_fields(*old(headers))) ==> done.is_ok(),
            done.is_ok() ==> response_rewritten(
                *self,
                header_fields(*old(headers)),
                header_fields(*final(headers)),
            ),
            done.is_err() ==> header_fields(*final(headers)) == header_fields(*old(headers)),
    {
        match self {
            GrpcKind::Plain => {
                GrpcKindPlain.modify_response(headers);
                Ok(())
            },
            GrpcKind::Web => GrpcKindWeb.modify_response(headers),
        }
    }

    /// Rewrites one frame of an answer's body for the client by the rules of
    /// this flavour. `None` where gRPC-Web trailers are too long for a
    /// terminal frame.
    pub fn rewrite_frame(&self, frame: BodyFrame) -> (out: Option<BodyFrame>)
        ensures
            out.is_some() == (*self == GrpcKind::Web ==> (frame@ matches FrameView::Trailers(t)
                ==> is_encodable(t))),
            out matches Some(f) ==> f@ == frame_rewritten(*self, frame@),
    {
        match self {
            GrpcKind::Plain => Some(GrpcKindPlain.modify_frame(frame)),
            GrpcKind::Web => GrpcKindWeb.modify_frame(frame),
        }
    }
}

/// A content type is told apart by its prefix alone: every gRPC-Web type is
/// Web, every other gRPC type is Plain, and nothing else has a flavour.
pub proof fn lemma_classify_by_prefix(content_type: Seq<u8>)
    ensures
        grpc_web_type().is_prefix_of(content_type) ==> grpc_type().is_prefix_of(content_type),
        classify(content_type) == Some(GrpcKind::Web) <==> grpc_web_type().is_prefix_of(
            content_type,
        ),
        classify(content_type) == Some(GrpcKind::Plain) <==> grpc_type().is_prefix_of(content_type)
            && !grpc_web_type().is_prefix_of(content_type),
        classify(content_type).is_none() <==> !grpc_type().is_prefix_of(content_type),
{
    reveal_strlit("application/grpc-web");
    reveal_strlit("application/grpc");
    if grpc_web_type().is_prefix_of(content_type) {
        let web = grpc_web_type();
        let plain = grpc_type();
        assert(plain.len() <= web.len());
        assert(plain =~= web.subrange(0, plain.len() as int));
        assert(content_type.subrange(0, plain.len() as int) =~= content_type.subrange(
            0,
            web.len() as int,
        ).subrange(0, plain.len() as int));
    }
}

/// Rewriting for a gRPC-Web client keeps the data bytes of every data frame.
pub proof fn lemma_web_keeps_data(frames: Seq<FrameView>)
    requires
        forall|i: int| 0 <= i < frames.len() ==> #[trigger] frames[i] is Data,
    ensures
        payload(frames.map_values(|f: FrameView| web_frame(f))) == payload(frames),
    decreases frames.len(),
{
    let out = frames.map_values(|f: FrameView| web_frame(f));
    if frames.len() > 0 {
        lemma_web_keeps_data(frames.drop_last());
        assert(out.drop_last() =~= frames.drop_last().map_values(|f: FrameView| web_frame(f)));
        assert(frames.last() is Data);
    }
}

/// The data bytes that a gRPC-Web client gets are the data bytes that the
/// upstream sent, followed by the terminal frame of its trailers.
pub proof fn lemma_web_stream(data: Seq<FrameView>, trailers: Seq<(Seq<u8>, Seq<u8>)>)
    requires
        forall|i: int| 0 <= i < data.len() ==> #[trigger] data[i] is Data,
    ensures
        payload(data.push(FrameView::Trailers(trailers)).map_values(|f: FrameView| web_frame(f)))
            == payload(data) + terminal_frame(trailers),
{
    let sent = data.push(FrameView::Trailers(trailers));
    let got = sent.map_values(|f: FrameView| web_frame(f));
    lemma_web_keeps_data(data);
    assert(got.drop_last() =~= data.map_values(|f: FrameView| web_frame(f)));
    assert(got.last() == FrameView::Data(terminal_frame(trailers)));
}

} // verus!

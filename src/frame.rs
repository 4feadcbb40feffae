use crate::common::{RawId, WireId};
use vstd::prelude::*;

verus! {

broadcast use vstd::array::group_array_axioms;

/// The payloads that a tagged frame can carry, one variant for each declared
/// identifier of `Self::Id`.
pub trait TaggedPayload: Sized {
    type Id: WireId;

    /// Length of the payload region: that of the largest variant.
    spec fn payload_len() -> nat;

    /// Whether a variant is declared for `id`.
    spec fn declares(id: Self::Id) -> bool;

    /// The identifier of the variant.
    spec fn spec_id(self) -> Self::Id;

    /// The variant's payload, zero-extended to the payload region.
    spec fn spec_payload(self) -> Seq<u8>;

    /// The variant declared for `id`, read from a payload region.
    spec fn spec_decode(id: Self::Id, payload: Seq<u8>) -> Self;

    /// Each variant is declared, fills the payload region and reads back from it.
    proof fn lemma_payload(self)
        ensures
            Self::declares(self.spec_id()),
            self.spec_payload().len() == Self::payload_len(),
            Self::spec_decode(self.spec_id(), self.spec_payload()) == self,
    ;

    fn region_len() -> (r: usize)
        ensures
            r == Self::payload_len(),
    ;

    fn is_declared(id: Self::Id) -> (r: bool)
        ensures
            r == Self::declares(id),
    ;

    fn id(&self) -> (r: Self::Id)
        ensures
            r == self.spec_id(),
    ;

    fn payload(&self) -> (r: Vec<u8>)
        ensures
            r@ == self.spec_payload(),
    ;

    fn decode(id: Self::Id, payload: &[u8]) -> (r: Self)
        requires
            Self::declares(id),
            payload@.len() == Self::payload_len(),
        ensures
            r == Self::spec_decode(id, payload@),
    ;
}

/// The zero bytes of a header or region of `n` bytes.
pub open spec fn zero_bytes(n: nat) -> Seq<u8> {
    Seq::new(n, |i: int| 0u8)
}

/// What a frame holds: the header before the tag, the tag byte, the header after
/// it and the payload region.
pub struct FrameView {
    pub pre: Seq<u8>,
    pub tag: u8,
    pub post: Seq<u8>,
    pub payload: Seq<u8>,
}

/// The variant that a frame carries, or `None` when its tag names no declared
/// variant.
pub open spec fn decoded<V: TaggedPayload>(f: FrameView) -> Option<V> {
    match V::Id::spec_from_u8(f.tag) {
        Some(id) => if V::declares(id) {
            Some(V::spec_decode(id, f.payload))
        } else {
            None
        },
        None => None,
    }
}

/// The frame that carries `v`, with zeroed headers.
pub open spec fn framed<V: TaggedPayload>(v: V, pre_len: nat, post_len: nat) -> FrameView {
    FrameView {
        pre: zero_bytes(pre_len),
        tag: v.spec_id().spec_to_u8(),
        post: zero_bytes(post_len),
        payload: v.spec_payload(),
    }
}

/// A frame of fixed size: `PRE` header bytes, a tag naming the variant, `POST`
/// header bytes and a payload region as long as the largest variant.
pub struct Frame<V: TaggedPayload, const PRE: usize, const POST: usize> {
    pre: [u8; PRE],
    id: RawId<V::Id>,
    post: [u8; POST],
    payload: Vec<u8>,
}

impl<V: TaggedPayload, const PRE: usize, const POST: usize> View for Frame<V, PRE, POST> {
    type V = FrameView;

    closed spec fn view(&self) -> FrameView {
        FrameView { pre: self.pre@, tag: self.id@, post: self.post@, payload: self.payload@ }
    }
}

impl<V: TaggedPayload, const PRE: usize, const POST: usize> Frame<V, PRE, POST> {
    #[verifier::type_invariant]
    spec fn inv(self) -> bool {
        self.payload@.len() == V::payload_len()
    }

    /// A frame whose bytes are all zero.
    pub fn new() -> (r: Self)
        ensures
            r@ == (FrameView {
                pre: zero_bytes(PRE as nat),
                tag: 0,
                post: zero_bytes(POST as nat),
                payload: zero_bytes(V::payload_len()),
            }),
    {
        let n = V::region_len();
        let mut payload: Vec<u8> = Vec::new();
        let mut i: usize = 0;
        while i < n
            invariant
                i <= n,
                n == V::payload_len(),
                payload@ == zero_bytes(i as nat),
            decreases n - i,
        {
            payload.push(0);
            i = i + 1;
            assert(payload@ =~= zero_bytes(i as nat));
        }
        let r = Frame { pre: [0u8; PRE], id: RawId::new(0), post: [0u8; POST], payload };
        assert(r@.pre =~= zero_bytes(PRE as nat));
        assert(r@.post =~= zero_bytes(POST as nat));
        r
    }

    pub fn id(&self) -> (r: RawId<V::Id>)
        ensures
            r@ == self@.tag,
    {
        self.id
    }

    /// The header before the tag.
    pub fn pre(&self) -> (r: [u8; PRE])
        ensures
            r@ == self@.pre,
    {
        self.pre
    }

    pub fn set_pre(&mut self, pre: [u8; PRE])
        ensures
            final(self)@ == (FrameView { pre: pre@, ..old(self)@ }),
    {
        proof {
            use_type_invariant(&*self);
        }
        self.pre = pre;
    }

    /// The header after the tag.
    pub fn post(&self) -> (r: [u8; POST])
        ensures
            r@ == self@.post,
    {
        self.post
    }

    pub fn set_post(&mut self, post: [u8; POST])
        ensures
            final(self)@ == (FrameView { post: post@, ..old(self)@ }),
    {
        proof {
            use_type_invariant(&*self);
        }
        self.post = post;
    }

    /// The whole payload region as raw bytes.
    pub fn raw(&self) -> (r: &[u8])
        ensures
            r@ == self@.payload,
    {
        self.payload.as_slice()
    }

    /// The variant the frame carries, when its tag names a declared one.
    pub fn variant(&self) -> (r: Option<V>)
        ensures
            r == decoded::<V>(self@),
    {
        proof {
            use_type_invariant(self);
        }
        match self.id.try_into() {
            Some(id) => if V::is_declared(id) {
                Some(V::decode(id, self.payload.as_slice()))
            } else {
                None
            },
            None => None,
        }
    }

    /// The variant the frame carries, or the frame itself when its tag names no
    /// declared variant.
    pub fn try_into_view(self) -> (r: Result<V, Self>)
        ensures
            match decoded::<V>(self@) {
                Some(v) => r == Ok::<V, Self>(v),
                None => r matches Err(f) && f@ == self@,
            },
    {
        match self.variant() {
            Some(v) => Ok(v),
            None => Err(self),
        }
    }

    /// The frame's bytes.
    pub fn to_bytes(&self) -> (r: Vec<u8>)
        ensures
            r@ == frame_bytes(self@),
    {
        let mut r: Vec<u8> = Vec::new();
        push_all(&mut r, &self.pre);
        r.push(self.id.to_byte());
        push_all(&mut r, &self.post);
        push_all(&mut r, self.payload.as_slice());
        r
    }

    /// Reads a frame from the first bytes of `b`; `None` when `b` is shorter than
    /// a frame.
    pub fn from_bytes(b: &[u8]) -> (r: Option<Self>)
        ensures
            r is None <==> b@.len() < PRE + 1 + POST + V::payload_len(),
            r matches Some(f) ==> frame_bytes(f@) == b@.take(PRE + 1 + POST + V::payload_len()),
    {
        let n = V::region_len();
        let blen = b.len();
        if b.len() < PRE || b.len() - PRE < 1 || b.len() - PRE - 1 < POST || b.len() - PRE - 1
            - POST < n {
            return None;
        }
        let mut pre = [0u8; PRE];
        let mut i: usize = 0;
        while i < PRE
            invariant
                i <= PRE <= b@.len(),
                forall|j: int| 0 <= j < i ==> pre@[j] == b@[j],
            decreases PRE - i,
        {
            pre[i] = b[i];
            i = i + 1;
        }
        let mut post = [0u8; POST];
        let mut k: usize = 0;
        while k < POST
            invariant
                k <= POST,
                blen == b@.len(),
                PRE + 1 + POST <= b@.len(),
                forall|j: int| 0 <= j < k ==> post@[j] == b@[PRE + 1 + j],
            decreases POST - k,
        {
            post[k] = b[PRE + 1 + k];
            k = k + 1;
        }
        let start = PRE + 1 + POST;
        let mut payload: Vec<u8> = Vec::new();
        let mut m: usize = 0;
        while m < n
            invariant
                m <= n,
                n == V::payload_len(),
                start == PRE + 1 + POST,
                blen == b@.len(),
                start + n <= b@.len(),
                payload@ == b@.subrange(start as int, start + m),
            decreases n - m,
        {
            payload.push(b[start + m]);
            m = m + 1;
            assert(payload@ =~= b@.subrange(start as int, start + m));
        }
        let r = Frame { pre, id: RawId::new(b[PRE]), post, payload };
        assert(frame_bytes(r@) =~= b@.take(PRE + 1 + POST + V::payload_len()));
        Some(r)
    }

    /// Makes the frame carry `v`, keeping its headers.
    pub fn set_view(&mut self, v: V)
        ensures
            final(self)@ == (FrameView {
                tag: v.spec_id().spec_to_u8(),
                payload: v.spec_payload(),
                ..old(self)@
            }),
    {
        proof {
            v.lemma_payload();
        }
        self.payload = v.payload();
        self.id = RawId::new(v.id().to_u8());
    }

    /// The frame that carries `v`, with zeroed headers.
    pub fn from_view(v: V) -> (r: Self)
        ensures
            r@ == framed(v, PRE as nat, POST as nat),
    {
        proof {
            v.lemma_payload();
        }
        let r = Frame {
            pre: [0u8; PRE],
            id: RawId::new(v.id().to_u8()),
            post: [0u8; POST],
            payload: v.payload(),
        };
        assert(r@.pre =~= zero_bytes(PRE as nat));
        assert(r@.post =~= zero_bytes(POST as nat));
        r
    }
}

/// The bytes of a frame as they stand on the wire: header, tag, header, payload.
pub open spec fn frame_bytes(f: FrameView) -> Seq<u8> {
    f.pre + seq![f.tag] + f.post + f.payload
}

fn push_all(out: &mut Vec<u8>, b: &[u8])
    ensures
        final(out)@ == old(out)@ + b@,
{
    let ghost start = out@;
    let mut i: usize = 0;
    while i < b.len()
        invariant
            i <= b@.len(),
            out@ == start + b@.take(i as int),
        decreases b@.len() - i,
    {
        out.push(b[i]);
        i = i + 1;
        assert(out@ =~= start + b@.take(i as int));
    }
    assert(b@.take(i as int) =~= b@);
}

/// Converting a variant to a frame and the frame back gives the variant, and
/// converting it to a frame again gives the same frame, headers included.
pub proof fn lemma_frame_round_trip<V: TaggedPayload>(v: V, pre_len: nat, post_len: nat)
    ensures
        decoded::<V>(framed(v, pre_len, post_len)) == Some(v),
        framed(v, pre_len, post_len).pre == zero_bytes(pre_len),
        framed(v, pre_len, post_len).post == zero_bytes(post_len),
{
    v.lemma_payload();
    V::Id::lemma_wire_id(v.spec_id(), 0);
}

} // verus!

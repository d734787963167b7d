//! The packet producer of a track download.
//!
//! The audio is padded with zeros to whole frames and encrypted under a
//! random content key with DES in CBC mode. It leaves in packets; the chaining
//! runs on from packet to packet, so that the packets together are one
//! encryption of the padded audio. The content key travels with the packets,
//! wrapped under the key encryption key.
use vstd::prelude::*;
use crate::netmd::block_cipher::{
    cbc_chain,
    cbc_decrypt,
    cbc_encrypt,
    decryption_undoes_encryption,
    des_cbc_encrypt,
    des_decrypt_block,
    des_ecb_decrypt,
    lemma_cbc_decrypt_of_encrypt,
    lemma_cbc_encrypt_len,
    lemma_cbc_encrypt_piece,
    random_block,
    zero_block,
};
use crate::netmd::query_utils::copy_range;

verus! {

/// The size of a packet where none is asked for.
pub const DEFAULT_CHUNK_SIZE: usize = 0x0010_0000;

/// What the first packet leaves free for its header on the wire.
pub const FIRST_PACKET_HEADER: usize = 24;

/// What goes into an [`Encryptor`].
pub struct DataEncryptorInput {
    /// The key encryption key.
    pub kek: [u8; 8],
    /// The size of an audio frame, a multiple of the cipher's block.
    pub frame_size: usize,
    /// The audio.
    pub data: Vec<u8>,
    /// The size of a packet, or 0 for the default.
    pub chunk_size: usize,
}

/// The number of zero bytes that pad `len` bytes to whole frames.
pub open spec fn padding_len(len: nat, frame_size: nat) -> nat {
    if len % frame_size == 0 {
        0
    } else {
        (frame_size - len % frame_size) as nat
    }
}

/// `data` with zero bytes up to the next multiple of `frame_size`.
pub open spec fn padded(data: Seq<u8>, frame_size: nat) -> Seq<u8> {
    data + Seq::new(padding_len(data.len(), frame_size), |i: int| 0u8)
}

/// The size of a packet for a requested size.
pub open spec fn chunk_size_or_default(chunk_size: usize) -> usize {
    if chunk_size == 0 {
        DEFAULT_CHUNK_SIZE
    } else {
        chunk_size
    }
}

/// Whether an encryptor can be made of an input: frames are whole cipher
/// blocks, packets are whole cipher blocks of which the first holds at least
/// one beside its header, and the padded audio can be held.
pub open spec fn valid_input(input: DataEncryptorInput) -> bool {
    &&& input.frame_size > 0
    &&& input.frame_size % 8 == 0
    &&& input.chunk_size == 0 || (input.chunk_size >= 32 && input.chunk_size % 8 == 0)
    &&& input.data@.len() + input.frame_size + FIRST_PACKET_HEADER <= usize::MAX
}

/// Padding fills up to whole frames and no further: the padded length is
/// the least multiple of the frame size that holds the data, which is
/// `ceil(len / frame_size) * frame_size`.
pub proof fn lemma_padded_len(data: Seq<u8>, frame_size: nat)
    requires
        frame_size > 0,
    ensures
        padded(data, frame_size).len() == ((data.len() + frame_size - 1) / frame_size as int)
            * frame_size,
        padded(data, frame_size).len() % frame_size == 0,
        data.len() <= padded(data, frame_size).len() < data.len() + frame_size,
        padded(data, frame_size).subrange(0, data.len() as int) == data,
{
    let len = data.len() as int;
    let f = frame_size as int;
    let q = len / f;
    let r = len % f;
    vstd::arithmetic::div_mod::lemma_fundamental_div_mod(len, f);
    assert(len == f * q + r);
    if r == 0 {
        assert(len + f - 1 == q * f + (f - 1)) by (nonlinear_arith)
            requires
                len == f * q,
        ;
        vstd::arithmetic::div_mod::lemma_fundamental_div_mod_converse(len + f - 1, f, q, f - 1);
        vstd::arithmetic::div_mod::lemma_mod_multiples_basic(q, f);
    } else {
        assert(len + f - 1 == (q + 1) * f + (r - 1)) by (nonlinear_arith)
            requires
                len == f * q + r,
        ;
        vstd::arithmetic::div_mod::lemma_fundamental_div_mod_converse(
            len + f - 1,
            f,
            q + 1,
            r - 1,
        );
        assert(len + (f - r) == (q + 1) * f) by (nonlinear_arith)
            requires
                len == f * q + r,
        ;
        vstd::arithmetic::div_mod::lemma_mod_multiples_basic(q + 1, f);
    }
}

/// What an [`Encryptor`] stands for: the padded audio, its keys, the size of
/// a packet, and how far the audio has left.
pub ghost struct Stream {
    pub payload: Seq<u8>,
    pub content_key: Seq<u8>,
    pub wrapped_key: Seq<u8>,
    pub chunk_size: nat,
    pub consumed: nat,
    pub packets: nat,
    pub closed: bool,
}

/// The one encryption that all packets of a stream are pieces of: the
/// payload under the content key, chained from a zero block.
pub open spec fn stream_ciphertext(stream: Stream) -> Seq<u8> {
    cbc_encrypt(stream.content_key, zero_block(), stream.payload)
}

/// The size of the next packet of a stream: the packet size, less the header
/// in the first packet, and no more than what is left.
pub open spec fn stream_next_len(stream: Stream) -> nat {
    let room = if stream.packets > 0 {
        stream.chunk_size
    } else {
        (stream.chunk_size - FIRST_PACKET_HEADER) as nat
    };
    let left = (stream.payload.len() - stream.consumed) as nat;
    if room < left {
        room
    } else {
        left
    }
}

/// The next packet of a stream and the stream behind it: the wrapped
/// content key, the initialisation vector that the packet is chained from,
/// and the next piece of the ciphertext. A stream that is closed, or whose
/// payload has left, has none.
pub open spec fn stream_next(stream: Stream) -> Option<((Seq<u8>, Seq<u8>, Seq<u8>), Stream)> {
    if stream.closed || stream.consumed >= stream.payload.len() {
        None
    } else {
        let end = stream.consumed + stream_next_len(stream);
        Some(
            (
                (
                    stream.wrapped_key,
                    cbc_chain(
                        stream.content_key,
                        zero_block(),
                        stream.payload,
                        stream.consumed as int,
                    ),
                    stream_ciphertext(stream).subrange(stream.consumed as int, end as int),
                ),
                Stream { consumed: end, packets: stream.packets + 1, ..stream },
            ),
        )
    }
}

/// Whether a stream is one that an encryptor can stand for.
pub open spec fn stream_wf(stream: Stream) -> bool {
    &&& stream.chunk_size >= 32
    &&& stream.chunk_size % 8 == 0
    &&& stream.payload.len() % 8 == 0
    &&& stream.consumed <= stream.payload.len()
    &&& stream.consumed % 8 == 0
    &&& (stream.packets == 0 ==> stream.consumed == 0)
}

/// The ciphertext of all the packets that a stream still gives, one after
/// the other.
pub open spec fn stream_rest(stream: Stream) -> Seq<u8>
    decreases stream.payload.len() - stream.consumed,
{
    match stream_next(stream) {
        None => Seq::empty(),
        Some((packet, behind)) => if behind.consumed <= stream.consumed {
            Seq::empty()
        } else {
            packet.2 + stream_rest(behind)
        },
    }
}

/// The packets of a stream are one encryption: the ciphertext of the packets
/// that a stream still gives, one after the other, is what is left of the
/// encryption of the whole payload under the content key, chained from a zero
/// block.
pub proof fn lemma_packets_are_one_encryption(stream: Stream)
    requires
        stream_wf(stream),
        !stream.closed,
    ensures
        stream_rest(stream) == stream_ciphertext(stream).subrange(
            stream.consumed as int,
            stream.payload.len() as int,
        ),
        stream.consumed == 0 ==> stream_rest(stream) == cbc_encrypt(
            stream.content_key,
            zero_block(),
            stream.payload,
        ),
    decreases stream.payload.len() - stream.consumed,
{
    lemma_cbc_encrypt_len(stream.content_key, zero_block(), stream.payload);
    let whole = stream_ciphertext(stream);
    match stream_next(stream) {
        None => {
            assert(whole.subrange(stream.consumed as int, stream.payload.len() as int)
                == Seq::<u8>::empty());
        },
        Some((packet, behind)) => {
            assert(stream_next_len(stream) >= 8);
            assert(stream_next_len(stream) % 8 == 0);
            lemma_packets_are_one_encryption(behind);
            assert(stream_ciphertext(behind) == whole);
            assert(packet.2 + whole.subrange(behind.consumed as int, stream.payload.len() as int)
                == whole.subrange(stream.consumed as int, stream.payload.len() as int));
        },
    }
    if stream.consumed == 0 {
        assert(whole.subrange(0, stream.payload.len() as int) == whole);
    }
}

/// Padding decides what is consumed: the packets of a stream that is made
/// of `data` in frames of `frame_size` bytes hold `ceil(len / frame_size) *
/// frame_size` bytes of ciphertext in all.
pub proof fn lemma_packets_consume_whole_frames(stream: Stream, data: Seq<u8>, frame_size: nat)
    requires
        stream_wf(stream),
        !stream.closed,
        stream.consumed == 0,
        frame_size > 0,
        stream.payload == padded(data, frame_size),
    ensures
        stream_rest(stream).len() == ((data.len() + frame_size - 1) / frame_size as int)
            * frame_size,
{
    lemma_packets_are_one_encryption(stream);
    lemma_cbc_encrypt_len(stream.content_key, zero_block(), stream.payload);
    lemma_padded_len(data, frame_size);
}

/// Decrypting the packets gives the padded audio back: the ciphertext of all
/// the packets of a fresh stream, decrypted under the content key from a zero
/// block, is the payload. This rests on block decryption undoing block
/// encryption under the content key, which is stated as a condition.
pub proof fn lemma_packets_decrypt_to_payload(stream: Stream)
    requires
        stream_wf(stream),
        !stream.closed,
        stream.consumed == 0,
        decryption_undoes_encryption(stream.content_key),
    ensures
        cbc_decrypt(stream.content_key, zero_block(), stream_rest(stream)) == stream.payload,
{
    lemma_packets_are_one_encryption(stream);
    lemma_cbc_decrypt_of_encrypt(stream.content_key, zero_block(), stream.payload);
}

/// What a packet holds.
pub open spec fn packet_view(packet: Option<(Vec<u8>, Vec<u8>, Vec<u8>)>) -> Option<
    (Seq<u8>, Seq<u8>, Seq<u8>),
> {
    match packet {
        Some((key, iv, data)) => Some((key@, iv@, data@)),
        None => None,
    }
}

/// An audio stream on its way into encrypted packets.
pub struct Encryptor {
    input_data: Vec<u8>,
    iv: Vec<u8>,
    random_key: Vec<u8>,
    encrypted_random_key: Vec<u8>,
    default_chunk_size: usize,
    current_chunk_size: usize,
    offset: usize,
    packet_count: usize,
    closed: bool,
    made: Option<Vec<u8>>,
    plain: Ghost<Seq<u8>>,
}

impl View for Encryptor {
    type V = Stream;

    closed spec fn view(&self) -> Stream {
        Stream {
            payload: self.plain@,
            content_key: self.random_key@,
            wrapped_key: self.encrypted_random_key@,
            chunk_size: self.default_chunk_size as nat,
            consumed: self.offset as nat,
            packets: self.packet_count as nat,
            closed: self.closed,
        }
    }
}

impl Encryptor {
    /// The padded audio.
    pub open spec fn payload(&self) -> Seq<u8> {
        self@.payload
    }

    /// The content key.
    pub open spec fn content_key(&self) -> Seq<u8> {
        self@.content_key
    }

    /// The content key as it travels: decrypted with the key encryption key.
    pub open spec fn wrapped_key(&self) -> Seq<u8> {
        self@.wrapped_key
    }

    /// How many bytes of the payload have left in packets.
    pub open spec fn consumed(&self) -> nat {
        self@.consumed
    }

    /// How many packets have left.
    pub open spec fn packets(&self) -> nat {
        self@.packets
    }

    /// Whether the stream has been closed.
    pub open spec fn is_closed(&self) -> bool {
        self@.closed
    }

    /// The size of a packet after the first.
    pub open spec fn chunk_size(&self) -> nat {
        self@.chunk_size
    }

    /// The one encryption that all packets are pieces of: the payload under
    /// the content key, chained from a zero block.
    pub open spec fn ciphertext(&self) -> Seq<u8> {
        stream_ciphertext(self@)
    }

    /// The size of the next packet.
    pub open spec fn next_len(&self) -> nat {
        stream_next_len(self@)
    }

    /// The invariant: keys are blocks, the payload and what has left of it are
    /// whole blocks, the chaining stands at the last block that left, and
    /// ciphertext that was made ahead is the one encryption of the payload.
    pub closed spec fn wf(&self) -> bool {
        &&& self.iv@.len() == 8
        &&& self.random_key@.len() == 8
        &&& self.encrypted_random_key@.len() == 8
        &&& self.default_chunk_size >= 32
        &&& self.default_chunk_size % 8 == 0
        &&& self.input_data@.len() == self.plain@.len()
        &&& self.plain@.len() % 8 == 0
        &&& self.offset <= self.plain@.len()
        &&& self.offset % 8 == 0
        &&& self.packet_count <= self.offset
        &&& (self.packet_count == 0 ==> self.offset == 0)
        &&& self.iv@ == cbc_chain(self.random_key@, zero_block(), self.plain@, self.offset as int)
        &&& self.input_data@ == self.plain@
        &&& self.plain@.len() + FIRST_PACKET_HEADER <= usize::MAX
        &&& (self.made matches Some(whole) ==> whole@ == cbc_encrypt(
            self.random_key@,
            zero_block(),
            self.plain@,
        ))
    }

    /// What the invariant says to the outside.
    pub proof fn lemma_wf(&self)
        requires
            self.wf(),
        ensures
            self.content_key().len() == 8,
            self.wrapped_key().len() == 8,
            self.chunk_size() >= 32,
            self.chunk_size() % 8 == 0,
            self.payload().len() % 8 == 0,
            self.consumed() <= self.payload().len(),
            self.consumed() % 8 == 0,
            self.ciphertext().len() == self.payload().len(),
            self.packets() == 0 ==> self.consumed() == 0,
            self.packets() <= self.consumed(),
            self.payload().len() + FIRST_PACKET_HEADER <= usize::MAX,
            stream_wf(self@),
    {
        lemma_cbc_encrypt_len(self.random_key@, zero_block(), self.plain@);
    }

    /// An encryptor with a content key drawn at random.
    pub fn new(input: DataEncryptorInput) -> (e: Encryptor)
        requires
            valid_input(input),
        ensures
            e.wf(),
            e.payload() == padded(input.data@, input.frame_size as nat),
            e.wrapped_key() == des_decrypt_block(input.kek@, e.content_key()),
            e.chunk_size() == chunk_size_or_default(input.chunk_size),
            e.consumed() == 0,
            e.packets() == 0,
            !e.is_closed(),
    {
        Encryptor::with_content_key(input, random_block())
    }

    /// An encryptor with the given content key.
    pub fn with_content_key(input: DataEncryptorInput, content_key: Vec<u8>) -> (e: Encryptor)
        requires
            valid_input(input),
            content_key@.len() == 8,
        ensures
            e.wf(),
            e.payload() == padded(input.data@, input.frame_size as nat),
            e.content_key() == content_key@,
            e.wrapped_key() == des_decrypt_block(input.kek@, content_key@),
            e.chunk_size() == chunk_size_or_default(input.chunk_size),
            e.consumed() == 0,
            e.packets() == 0,
            !e.is_closed(),
    {
        let mut kek: Vec<u8> = Vec::new();
        let mut k: usize = 0;
        while k < 8
            invariant
                k <= 8,
                kek@ == input.kek@.subrange(0, k as int),
            decreases 8 - k,
        {
            kek.push(input.kek[k]);
            k = k + 1;
        }
        assert(kek@ == input.kek@);
        let encrypted_random_key = des_ecb_decrypt(&kek, &content_key);
        let default_chunk_size = if input.chunk_size == 0 {
            DEFAULT_CHUNK_SIZE
        } else {
            input.chunk_size
        };
        let mut input_data = input.data;
        let ghost given = input_data@;
        let len = input_data.len();
        proof {
            lemma_padded_len(given, input.frame_size as nat);
        }
        if len % input.frame_size != 0 {
            let padding_remaining = input.frame_size - len % input.frame_size;
            let mut i: usize = 0;
            while i < padding_remaining
                invariant
                    i <= padding_remaining,
                    len + padding_remaining <= usize::MAX,
                    input_data@ == given + Seq::new(i as nat, |j: int| 0u8),
                decreases padding_remaining - i,
            {
                input_data.push(0);
                i = i + 1;
            }
        }
        assert(input_data@ == padded(given, input.frame_size as nat));
        proof {
            let total = input_data@.len() as int;
            let f = input.frame_size as int;
            assert(total % 8 == 0) by {
                vstd::arithmetic::div_mod::lemma_fundamental_div_mod(total, f);
                vstd::arithmetic::div_mod::lemma_fundamental_div_mod(f, 8);
                assert(total == f * (total / f));
                assert(f == 8 * (f / 8));
                assert(total == 8 * ((f / 8) * (total / f))) by (nonlinear_arith)
                    requires
                        total == f * (total / f),
                        f == 8 * (f / 8),
                ;
                vstd::arithmetic::div_mod::lemma_mod_multiples_basic((f / 8) * (total / f), 8);
                assert(8 * ((f / 8) * (total / f)) == ((f / 8) * (total / f)) * 8)
                    by (nonlinear_arith);
            }
        }
        let mut iv: Vec<u8> = Vec::new();
        let mut z: usize = 0;
        while z < 8
            invariant
                z <= 8,
                iv@ == Seq::new(z as nat, |j: int| 0u8),
            decreases 8 - z,
        {
            iv.push(0);
            z = z + 1;
        }
        assert(iv@ == zero_block());
        Encryptor {
            plain: Ghost(input_data@),
            input_data,
            iv,
            random_key: content_key,
            encrypted_random_key,
            default_chunk_size,
            current_chunk_size: 0,
            offset: 0,
            packet_count: 0,
            closed: false,
            made: None,
        }
    }

    /// The stream with all of its ciphertext made ahead, in one encryption.
    /// Its packets are the same; each is then cut from what was made.
    pub fn prepared(self) -> (e: Encryptor)
        requires
            self.wf(),
        ensures
            e.wf(),
            e@ == self@,
    {
        let mut start: Vec<u8> = Vec::new();
        let mut z: usize = 0;
        while z < 8
            invariant
                z <= 8,
                start@ == Seq::new(z as nat, |j: int| 0u8),
            decreases 8 - z,
        {
            start.push(0);
            z = z + 1;
        }
        assert(start@ == zero_block());
        let whole = des_cbc_encrypt(&self.random_key, &start, self.input_data.clone());
        Encryptor {
            input_data: self.input_data,
            iv: self.iv,
            random_key: self.random_key,
            encrypted_random_key: self.encrypted_random_key,
            default_chunk_size: self.default_chunk_size,
            current_chunk_size: self.current_chunk_size,
            offset: self.offset,
            packet_count: self.packet_count,
            closed: self.closed,
            made: Some(whole),
            plain: self.plain,
        }
    }

    /// The next packet: the wrapped content key, the initialisation vector
    /// that the packet was chained from, and the ciphertext.
    ///
    /// There is none once the stream is closed or the payload has left. Each
    /// packet is the next piece of [`Encryptor::ciphertext`].
    pub fn next(&mut self) -> (packet: Option<(Vec<u8>, Vec<u8>, Vec<u8>)>)
        requires
            old(self).wf(),
        ensures
            final(self).wf(),
            match stream_next(old(self)@) {
                None => packet is None && final(self)@ == old(self)@,
                Some((sent, behind)) => packet_view(packet) == Some(sent) && final(self)@
                    == behind,
            },
    {
        if self.closed || self.offset == self.input_data.len() {
            return None;
        }
        if self.packet_count > 0 {
            self.current_chunk_size = self.default_chunk_size;
        } else {
            self.current_chunk_size = self.default_chunk_size - FIRST_PACKET_HEADER;
        }
        let left = self.input_data.len() - self.offset;
        if left < self.current_chunk_size {
            self.current_chunk_size = left;
        }
        let from = self.offset;
        let to = self.offset + self.current_chunk_size;
        let ghost key = self.random_key@;
        let ghost plain = self.plain@;
        let ghost whole = cbc_encrypt(key, zero_block(), plain);
        proof {
            assert(self.current_chunk_size % 8 == 0);
            assert(self.current_chunk_size >= 8);
            lemma_cbc_encrypt_piece(key, zero_block(), plain, from as int, to as int);
            lemma_cbc_encrypt_len(key, zero_block(), plain);
        }
        let chunk = match &self.made {
            Some(made) => copy_range(made, from, to),
            None => des_cbc_encrypt(
                &self.random_key,
                &self.iv,
                copy_range(&self.input_data, from, to),
            ),
        };
        assert(chunk@ == whole.subrange(from as int, to as int));
        let sent_iv = self.iv.clone();
        let sent_key = self.encrypted_random_key.clone();
        self.iv = copy_range(&chunk, self.current_chunk_size - 8, self.current_chunk_size);
        proof {
            assert(self.iv@ == whole.subrange(to - 8, to as int)) by {
                assert(chunk@.subrange(to - from - 8, to - from) == whole.subrange(
                    to - 8,
                    to as int,
                ));
            }
        }
        self.packet_count = self.packet_count + 1;
        self.offset = to;
        Some((sent_key, sent_iv, chunk))
    }

    /// The size of the padded audio, in bytes.
    pub fn total_size(&self) -> (size: usize)
        requires
            self.wf(),
        ensures
            size == self@.payload.len(),
    {
        self.input_data.len()
    }

    /// A copy of the stream, at the same place.
    pub fn duplicate(&self) -> (e: Encryptor)
        requires
            self.wf(),
        ensures
            e.wf(),
            e@ == self@,
    {
        Encryptor {
            input_data: self.input_data.clone(),
            iv: self.iv.clone(),
            random_key: self.random_key.clone(),
            encrypted_random_key: self.encrypted_random_key.clone(),
            default_chunk_size: self.default_chunk_size,
            current_chunk_size: self.current_chunk_size,
            offset: self.offset,
            packet_count: self.packet_count,
            closed: self.closed,
            made: match &self.made {
                Some(made) => Some(made.clone()),
                None => None,
            },
            plain: self.plain,
        }
    }

    /// Closes the stream: no packet leaves after this.
    pub fn close(&mut self)
        requires
            old(self).wf(),
        ensures
            final(self).wf(),
            final(self)@ == (Stream { closed: true, ..old(self)@ }),
    {
        self.closed = true;
    }
}

} // verus!

//! The payload onion: a fixed-size buffer that carries the destination and
//! the message behind one wide-block cipher layer per hop, with a leading
//! all-zero integrity beacon that any bit-flip destroys.

use vstd::prelude::*;

use crate::bytes::{concat_bytes, seq_views, zero_bytes, zeros};
use crate::constants::{
    DESTINATION_ADDRESS_LENGTH, PAYLOAD_KEY_SIZE, PAYLOAD_SIZE, SECURITY_PARAMETER,
};
use crate::crypto::{
    lioness_decrypt_block, lioness_encrypt_block, lioness_encrypted, wide_block_dec,
    wide_block_enc,
};
use crate::ProcessingError;

verus! {

/// The innermost payload plaintext: sigma zero bytes (the integrity beacon),
/// the destination, the message, and zero padding up to the payload size.
pub open spec fn payload_plaintext(destination: Seq<u8>, message: Seq<u8>) -> Seq<u8> {
    zeros(SECURITY_PARAMETER as nat) + destination + message + zeros(
        (PAYLOAD_SIZE - SECURITY_PARAMETER - DESTINATION_ADDRESS_LENGTH - message.len()) as nat,
    )
}

/// The payload after one wide-block layer per key, `keys[0]` outermost.
pub open spec fn onion_encrypt(keys: Seq<Seq<u8>>, p: Seq<u8>) -> Seq<u8>
    decreases keys.len(),
{
    if keys.len() == 0 {
        p
    } else {
        wide_block_enc(keys[0], onion_encrypt(keys.skip(1), p))
    }
}

/// Every onion layer preserves the buffer length.
pub proof fn lemma_onion_encrypt_len(keys: Seq<Seq<u8>>, p: Seq<u8>)
    ensures
        onion_encrypt(keys, p).len() == p.len(),
    decreases keys.len(),
{
    if keys.len() > 0 {
        lemma_onion_encrypt_len(keys.skip(1), p);
    }
}

/// Adding the innermost layer first and the rest afterwards is the same as
/// building the whole onion.
pub proof fn lemma_onion_encrypt_snoc(keys: Seq<Seq<u8>>, p: Seq<u8>)
    requires
        keys.len() >= 1,
    ensures
        onion_encrypt(keys, p) == onion_encrypt(
            keys.take(keys.len() - 1),
            wide_block_enc(keys[keys.len() - 1], p),
        ),
    decreases keys.len(),
{
    let t = keys.take(keys.len() - 1);
    let last = keys[keys.len() - 1];
    if keys.len() == 1 {
        assert(t =~= Seq::<Seq<u8>>::empty());
        assert(onion_encrypt(t, wide_block_enc(last, p)) == wide_block_enc(last, p));
        assert(keys.skip(1) =~= Seq::<Seq<u8>>::empty());
        assert(onion_encrypt(Seq::<Seq<u8>>::empty(), p) == p);
        assert(onion_encrypt(keys, p) == wide_block_enc(keys[0], p));
    } else {
        lemma_onion_encrypt_snoc(keys.skip(1), p);
        assert(keys.skip(1).take(keys.skip(1).len() - 1) =~= t.skip(1));
        assert(keys.skip(1)[keys.skip(1).len() - 1] == last);
        assert(t[0] == keys[0]);
        assert(onion_encrypt(keys, p) == wide_block_enc(
            keys[0],
            onion_encrypt(keys.skip(1), p),
        ));
        assert(onion_encrypt(t, wide_block_enc(last, p)) == wide_block_enc(
            t[0],
            onion_encrypt(t.skip(1), wide_block_enc(last, p)),
        ));
    }
}

/// A fixed-size message container, onion-encrypted with the wide-block
/// cipher.
#[derive(Clone)]
pub struct Payload {
    pub content: Vec<u8>,
}

impl Payload {
    /// The buffer has exactly the payload size.
    pub open spec fn wf(&self) -> bool {
        self.content@.len() == PAYLOAD_SIZE
    }

    /// Wraps `plaintext_message` for `destination_address` under every
    /// payload key, `payload_keys[i]` belonging to hop `i` in route order.
    /// Fails with `PayloadTooLargeError` exactly when the message does not
    /// fit next to the beacon and the destination.
    pub fn encapsulate_message(
        plaintext_message: &Vec<u8>,
        payload_keys: &Vec<Vec<u8>>,
        destination_address: &Vec<u8>,
    ) -> (r: Result<Self, ProcessingError>)
        requires
            payload_keys@.len() >= 1,
            forall|i: int|
                0 <= i < payload_keys@.len() ==> (#[trigger] payload_keys@[i])@.len()
                    == PAYLOAD_KEY_SIZE,
            destination_address@.len() == DESTINATION_ADDRESS_LENGTH,
        ensures
            r is Ok <==> plaintext_message@.len() + SECURITY_PARAMETER
                + DESTINATION_ADDRESS_LENGTH <= PAYLOAD_SIZE,
            r is Err ==> r == Result::<Self, ProcessingError>::Err(
                ProcessingError::PayloadTooLargeError,
            ),
            r is Ok ==> r->Ok_0.content@ == onion_encrypt(
                seq_views(payload_keys@),
                payload_plaintext(destination_address@, plaintext_message@),
            ) && r->Ok_0.wf(),
    {
        let num_keys = payload_keys.len();
        let final_payload_key = &payload_keys[num_keys - 1];
        let final_payload_layer = match Self::encrypt_final_layer(
            plaintext_message,
            final_payload_key,
            destination_address,
        ) {
            Ok(layer) => layer,
            Err(e) => {
                return Err(e);
            },
        };
        let result = Self::encrypt_outer_layers(final_payload_layer, payload_keys);
        proof {
            let views = seq_views(payload_keys@);
            let plain = payload_plaintext(destination_address@, plaintext_message@);
            lemma_onion_encrypt_snoc(views, plain);
            assert(views.take(views.len() - 1) =~= seq_views(payload_keys@).take(
                payload_keys@.len() - 1,
            ));
        }
        Ok(result)
    }

    /// The payload's bytes; called once every layer has been removed.
    pub fn get_content(self) -> (r: Vec<u8>)
        ensures
            r@ == self.content@,
    {
        self.content
    }

    /// A borrow of the payload's bytes.
    pub fn get_content_ref(&self) -> (r: &Vec<u8>)
        ensures
            r@ == self.content@,
    {
        &self.content
    }

    /// Builds the innermost layer: the beacon, destination, message and
    /// padding, encrypted once under the last hop's payload key.
    pub fn encrypt_final_layer(
        message: &Vec<u8>,
        final_payload_key: &Vec<u8>,
        destination_address: &Vec<u8>,
    ) -> (r: Result<Self, ProcessingError>)
        requires
            final_payload_key@.len() == PAYLOAD_KEY_SIZE,
            destination_address@.len() == DESTINATION_ADDRESS_LENGTH,
        ensures
            r is Ok <==> message@.len() + SECURITY_PARAMETER + DESTINATION_ADDRESS_LENGTH
                <= PAYLOAD_SIZE,
            r is Err ==> r == Result::<Self, ProcessingError>::Err(
                ProcessingError::PayloadTooLargeError,
            ),
            r is Ok ==> r->Ok_0.content@ == wide_block_enc(
                final_payload_key@,
                payload_plaintext(destination_address@, message@),
            ) && r->Ok_0.wf(),
    {
        if message.len() > PAYLOAD_SIZE - SECURITY_PARAMETER - DESTINATION_ADDRESS_LENGTH {
            return Err(ProcessingError::PayloadTooLargeError);
        }
        let zero_beacon = zero_bytes(SECURITY_PARAMETER);
        let padding_length = PAYLOAD_SIZE - SECURITY_PARAMETER - DESTINATION_ADDRESS_LENGTH
            - message.len();
        let padding = zero_bytes(padding_length);
        let head = concat_bytes(&zero_beacon, destination_address);
        let with_message = concat_bytes(&head, message);
        let mut final_payload = concat_bytes(&with_message, &padding);
        assert(final_payload@ =~= payload_plaintext(destination_address@, message@));
        lioness_encrypt_block(final_payload_key, &mut final_payload);
        Ok(Payload { content: final_payload })
    }

    /// Adds the remaining layers outside the innermost one, working from the
    /// next-to-last key outwards.
    pub fn encrypt_outer_layers(final_payload_layer: Self, route_payload_keys: &Vec<Vec<u8>>) -> (r:
        Self)
        requires
            final_payload_layer.wf(),
            route_payload_keys@.len() >= 1,
            forall|i: int|
                0 <= i < route_payload_keys@.len() ==> (#[trigger] route_payload_keys@[i])@.len()
                    == PAYLOAD_KEY_SIZE,
        ensures
            r.content@ == onion_encrypt(
                seq_views(route_payload_keys@).take(route_payload_keys@.len() - 1),
                final_payload_layer.content@,
            ),
            r.wf(),
    {
        let ghost views = seq_views(route_payload_keys@);
        let ghost base = final_payload_layer.content@;
        let n = route_payload_keys.len();
        let mut layer = final_payload_layer;
        let mut i: usize = n - 1;
        proof {
            assert(views.subrange(i as int, (n - 1) as int) =~= Seq::<Seq<u8>>::empty());
        }
        while i > 0
        invariant
                i <= n - 1,
                n == route_payload_keys@.len(),
                views == seq_views(route_payload_keys@),
                forall|k: int|
                    0 <= k < n ==> (#[trigger] route_payload_keys@[k])@.len() == PAYLOAD_KEY_SIZE,
                layer.content@ == onion_encrypt(views.subrange(i as int, (n - 1) as int), base),
                layer.wf(),
            decreases i,
        {
            i = i - 1;
            let new_layer = Self::add_layer_of_encryption(layer, &route_payload_keys[i]);
            proof {
                assert(views.subrange(i as int, (n - 1) as int).skip(1) =~= views.subrange(
                    (i + 1) as int,
                    (n - 1) as int,
                ));
                assert(views.subrange(i as int, (n - 1) as int)[0] == views[i as int]);
            }
            layer = new_layer;
        }
        proof {
            assert(views.subrange(0, (n - 1) as int) =~= views.take((n - 1) as int));
        }
        layer
    }

    /// Adds one wide-block layer on top of the current payload.
    pub fn add_layer_of_encryption(current_layer: Self, payload_enc_key: &Vec<u8>) -> (r: Self)
        requires
            current_layer.wf(),
            payload_enc_key@.len() == PAYLOAD_KEY_SIZE,
        ensures
            r.content@ == wide_block_enc(payload_enc_key@, current_layer.content@),
            r.wf(),
    {
        let mut payload_content = current_layer.content;
        lioness_encrypt_block(payload_enc_key, &mut payload_content);
        Payload { content: payload_content }
    }

    /// Removes one wide-block layer. If the payload carried exactly one more
    /// layer under this key, the layer underneath comes back unchanged.
    pub fn unwrap(self, payload_key: &Vec<u8>) -> (r: Self)
        requires
            self.wf(),
            payload_key@.len() == PAYLOAD_KEY_SIZE,
        ensures
            r.content@ == wide_block_dec(payload_key@, self.content@),
            r.wf(),
            forall|b: Seq<u8>|
                b.len() == PAYLOAD_SIZE && self.content@ == crate::bytes::padded_to(
                    #[trigger] lioness_encrypted(payload_key@, b),
                    b.len(),
                ) ==> r.content@ == b,
    {
        let mut payload_content = self.content;
        lioness_decrypt_block(payload_key, &mut payload_content);
        Payload { content: payload_content }
    }

    /// Removes one layer per key, `payload_keys[0]` first: the receiver-side
    /// chain. A payload built by `encapsulate_message` over these keys comes
    /// back as its original plaintext, byte for byte.
    pub fn unwrap_layers(self, payload_keys: &Vec<Vec<u8>>) -> (r: Self)
        requires
            self.wf(),
            forall|i: int|
                0 <= i < payload_keys@.len() ==> (#[trigger] payload_keys@[i])@.len()
                    == PAYLOAD_KEY_SIZE,
        ensures
            r.wf(),
            forall|p: Seq<u8>|
                p.len() == PAYLOAD_SIZE && self.content@ == onion_encrypt(
                    #[trigger] seq_views(payload_keys@),
                    p,
                ) ==> r.content@ == p,
    {
        let ghost views = seq_views(payload_keys@);
        let ghost original = self.content@;
        let n = payload_keys.len();
        let mut layer = self;
        let mut i: usize = 0;
        proof {
            assert(views.skip(0) =~= views);
        }
        while i < n
            invariant
                i <= n,
                n == payload_keys@.len(),
                views == seq_views(payload_keys@),
                forall|k: int|
                    0 <= k < n ==> (#[trigger] payload_keys@[k])@.len() == PAYLOAD_KEY_SIZE,
                layer.wf(),
                forall|p: Seq<u8>|
                    p.len() == PAYLOAD_SIZE && original == onion_encrypt(views, p)
                        ==> layer.content@ == onion_encrypt(views.skip(i as int), p),
            decreases n - i,
        {
            let new_layer = layer.unwrap(&payload_keys[i]);
            assert forall|p: Seq<u8>|
                p.len() == PAYLOAD_SIZE && original == onion_encrypt(views, p)
                    implies new_layer.content@ == onion_encrypt(views.skip(i + 1), p) by {
                let rest = onion_encrypt(views.skip(i as int).skip(1), p);
                lemma_onion_encrypt_len(views.skip(i as int).skip(1), p);
                assert(views.skip(i as int).skip(1) =~= views.skip(i + 1));
                assert(onion_encrypt(views.skip(i as int), p) == wide_block_enc(
                    views[i as int],
                    rest,
                ));
            }
            layer = new_layer;
            i = i + 1;
        }
        proof {
            assert forall|p: Seq<u8>|
                p.len() == PAYLOAD_SIZE && original == onion_encrypt(views, p)
                    implies layer.content@ == p by {
                assert(views.skip(n as int) =~= Seq::<Seq<u8>>::empty());
            }
        }
        layer
    }

    /// Accepts a received buffer as a payload; the buffer must hold at least
    /// a payload's worth of bytes.
    pub fn from_bytes(bytes: Vec<u8>) -> (r: Result<Self, ProcessingError>)
        ensures
            r is Err <==> bytes@.len() < PAYLOAD_SIZE,
            r is Err ==> r == Result::<Self, ProcessingError>::Err(
                ProcessingError::InvalidPayloadLengthError,
            ),
            r is Ok ==> r->Ok_0.content@ == bytes@,
    {
        if bytes.len() < PAYLOAD_SIZE {
            return Err(ProcessingError::InvalidPayloadLengthError);
        }
        Ok(Payload { content: bytes })
    }
}

} // verus!

//! The two byte encodings of transactions.
//!
//! The full encoding covers every field of a transaction and is what a
//! block's digest is taken over. The content encoding covers what a
//! transaction's own hash is taken over: inputs without their public keys,
//! outputs, the timestamp and the status.

use vstd::prelude::*;
use vstd::bytes::{spec_u32_to_le_bytes, spec_u64_to_le_bytes};
use crate::encoding::{
    framed, framed_text, lemma_framed_cancels, lemma_framed_text_cancels,
    lemma_same_length_cancels, lemma_u32_cancels, lemma_u64_cancels, put_bytes, put_raw, put_text,
    put_u32, put_u64, text_fits,
};
use crate::transaction::{
    input_views, output_views, transaction_views, Transaction, TransactionInput,
    TransactionInputView, TransactionMetadata, TransactionMetadataView, TransactionOutput,
    TransactionOutputView, TransactionStatus, TransactionType, TransactionView,
};

verus! {

/// The byte that stands for a status.
pub open spec fn status_tag(status: TransactionStatus) -> u8 {
    match status {
        TransactionStatus::Pending => 0,
        TransactionStatus::Mined => 1,
        TransactionStatus::Rejected => 2,
    }
}

/// The byte that stands for a transaction type.
pub open spec fn kind_tag(kind: TransactionType) -> u8 {
    match kind {
        TransactionType::Coinbase => 0,
        TransactionType::Fee => 1,
        TransactionType::Regular => 2,
    }
}

/// Encoding of one output: recipient, then amount.
pub open spec fn output_bytes(output: TransactionOutputView) -> Seq<u8> {
    framed_text(output.recipient_address) + spec_u64_to_le_bytes(output.amount)
}

/// Encodings of outputs, one after the other.
pub open spec fn outputs_bytes(outputs: Seq<TransactionOutputView>) -> Seq<u8>
    decreases outputs.len(),
{
    if outputs.len() == 0 {
        Seq::empty()
    } else {
        outputs_bytes(outputs.drop_last()) + output_bytes(outputs.last())
    }
}

/// Full encoding of one input, in the order of its fields.
pub open spec fn input_bytes(input: TransactionInputView) -> Seq<u8> {
    input.previous_tx_hash + spec_u32_to_le_bytes(input.index) + framed_text(input.signature)
        + framed(input.public_key) + spec_u64_to_le_bytes(input.amount) + spec_u64_to_le_bytes(
        input.nonce,
    )
}

/// Full encodings of inputs, one after the other.
pub open spec fn inputs_bytes(inputs: Seq<TransactionInputView>) -> Seq<u8>
    decreases inputs.len(),
{
    if inputs.len() == 0 {
        Seq::empty()
    } else {
        inputs_bytes(inputs.drop_last()) + input_bytes(inputs.last())
    }
}

/// Content encoding of one input: signature, spent hash, amount, nonce,
/// index. The public key is left out.
pub open spec fn input_content_bytes(input: TransactionInputView) -> Seq<u8> {
    framed_text(input.signature) + input.previous_tx_hash + spec_u64_to_le_bytes(input.amount)
        + spec_u64_to_le_bytes(input.nonce) + spec_u32_to_le_bytes(input.index)
}

/// Content encodings of inputs, one after the other.
pub open spec fn inputs_content_bytes(inputs: Seq<TransactionInputView>) -> Seq<u8>
    decreases inputs.len(),
{
    if inputs.len() == 0 {
        Seq::empty()
    } else {
        inputs_content_bytes(inputs.drop_last()) + input_content_bytes(inputs.last())
    }
}

/// Encoding of the metadata, in the order of its fields.
pub open spec fn metadata_bytes(metadata: TransactionMetadataView) -> Seq<u8> {
    metadata.transaction_hash + framed_text(metadata.timestamp) + seq![
        status_tag(metadata.status),
        kind_tag(metadata.kind),
    ] + framed(metadata.signature)
}

/// Full encoding of a transaction: counted inputs, counted outputs, metadata.
#[verifier::opaque]
pub open spec fn transaction_bytes(transaction: TransactionView) -> Seq<u8> {
    spec_u64_to_le_bytes(transaction.inputs.len() as u64) + inputs_bytes(transaction.inputs)
        + spec_u64_to_le_bytes(transaction.outputs.len() as u64) + outputs_bytes(
        transaction.outputs,
    ) + metadata_bytes(transaction.metadata)
}

/// Full encodings of transactions, one after the other.
pub open spec fn transactions_bytes(transactions: Seq<TransactionView>) -> Seq<u8>
    decreases transactions.len(),
{
    if transactions.len() == 0 {
        Seq::empty()
    } else {
        transactions_bytes(transactions.drop_last()) + transaction_bytes(transactions.last())
    }
}

/// Encoding of an ordered list of transactions: their count, then each.
pub open spec fn transaction_list_bytes(transactions: Seq<TransactionView>) -> Seq<u8> {
    spec_u64_to_le_bytes(transactions.len() as u64) + transactions_bytes(transactions)
}

/// What a transaction's hash is taken over: counted inputs in content form,
/// counted outputs, timestamp and status.
pub open spec fn content_bytes(
    inputs: Seq<TransactionInputView>,
    outputs: Seq<TransactionOutputView>,
    timestamp: Seq<char>,
    status: TransactionStatus,
) -> Seq<u8> {
    spec_u64_to_le_bytes(inputs.len() as u64) + inputs_content_bytes(inputs)
        + spec_u64_to_le_bytes(outputs.len() as u64) + outputs_bytes(outputs) + framed_text(
        timestamp,
    ) + seq![status_tag(status)]
}

/// An output whose fields can be framed.
pub open spec fn output_fits(output: TransactionOutputView) -> bool {
    text_fits(output.recipient_address)
}

/// An input whose hash has its 32 bytes and whose other fields can be
/// framed.
pub open spec fn input_fits(input: TransactionInputView) -> bool {
    &&& input.previous_tx_hash.len() == 32
    &&& text_fits(input.signature)
    &&& input.public_key.len() <= u64::MAX
}

/// Metadata whose hash has its 32 bytes and whose other fields can be
/// framed.
pub open spec fn metadata_fits(metadata: TransactionMetadataView) -> bool {
    &&& metadata.transaction_hash.len() == 32
    &&& text_fits(metadata.timestamp)
    &&& metadata.signature.len() <= u64::MAX
}

/// Every output of the sequence fits.
pub open spec fn outputs_fit(outputs: Seq<TransactionOutputView>) -> bool {
    forall|i: int| 0 <= i < outputs.len() ==> output_fits(#[trigger] outputs[i])
}

/// Every input of the sequence fits.
pub open spec fn inputs_fit(inputs: Seq<TransactionInputView>) -> bool {
    forall|i: int| 0 <= i < inputs.len() ==> input_fits(#[trigger] inputs[i])
}

/// A transaction whose counts and fields can be framed.
#[verifier::opaque]
pub open spec fn transaction_fits(transaction: TransactionView) -> bool {
    &&& transaction.inputs.len() <= u64::MAX
    &&& transaction.outputs.len() <= u64::MAX
    &&& inputs_fit(transaction.inputs)
    &&& outputs_fit(transaction.outputs)
    &&& metadata_fits(transaction.metadata)
}

/// Every transaction of the sequence fits.
pub open spec fn transactions_fit(transactions: Seq<TransactionView>) -> bool {
    forall|i: int| 0 <= i < transactions.len() ==> transaction_fits(#[trigger] transactions[i])
}

fn status_byte(status: TransactionStatus) -> (tag: u8)
    ensures
        tag == status_tag(status),
{
    match status {
        TransactionStatus::Pending => 0,
        TransactionStatus::Mined => 1,
        TransactionStatus::Rejected => 2,
    }
}

fn kind_byte(kind: TransactionType) -> (tag: u8)
    ensures
        tag == kind_tag(kind),
{
    match kind {
        TransactionType::Coinbase => 0,
        TransactionType::Fee => 1,
        TransactionType::Regular => 2,
    }
}

/// Appends the encoding of one output.
pub fn encode_output(out: &mut Vec<u8>, output: &TransactionOutput)
    ensures
        final(out)@ == old(out)@ + output_bytes(output@),
        output_fits(output@),
{
    let ghost before = out@;
    put_text(out, output.recipient_address.as_str());
    put_u64(out, output.amount);
    assert(out@ =~= before + output_bytes(output@));
}

/// Appends the count of `outputs` and the encoding of each.
pub fn encode_outputs(out: &mut Vec<u8>, outputs: &Vec<TransactionOutput>)
    ensures
        final(out)@ == old(out)@ + spec_u64_to_le_bytes(outputs@.len() as u64) + outputs_bytes(
            output_views(outputs@),
        ),
        outputs@.len() <= u64::MAX,
        outputs_fit(output_views(outputs@)),
{
    let ghost before = out@;
    let ghost views = output_views(outputs@);
    put_u64(out, outputs.len() as u64);
    let ghost counted = out@;
    let mut i: usize = 0;
    while i < outputs.len()
        invariant
            i <= outputs.len(),
            views == output_views(outputs@),
            out@ == counted + outputs_bytes(views.take(i as int)),
            forall|j: int| 0 <= j < i ==> output_fits(#[trigger] views[j]),
        decreases outputs.len() - i,
    {
        encode_output(out, &outputs[i]);
        assert(views.take(i + 1).drop_last() =~= views.take(i as int));
        assert(out@ =~= counted + outputs_bytes(views.take(i + 1)));
        i += 1;
    }
    assert(views.take(i as int) =~= views);
}

/// Appends the full encoding of one input.
pub fn encode_input(out: &mut Vec<u8>, input: &TransactionInput)
    ensures
        final(out)@ == old(out)@ + input_bytes(input@),
        input_fits(input@),
{
    let ghost before = out@;
    put_raw(out, input.previous_tx_hash.as_slice());
    put_u32(out, input.index);
    put_text(out, input.signature.as_str());
    put_bytes(out, input.public_key.as_slice());
    put_u64(out, input.amount);
    put_u64(out, input.nonce);
    assert(out@ =~= before + input_bytes(input@));
}

/// Appends the count of `inputs` and the full encoding of each.
pub fn encode_inputs(out: &mut Vec<u8>, inputs: &Vec<TransactionInput>)
    ensures
        final(out)@ == old(out)@ + spec_u64_to_le_bytes(inputs@.len() as u64) + inputs_bytes(
            input_views(inputs@),
        ),
        inputs@.len() <= u64::MAX,
        inputs_fit(input_views(inputs@)),
{
    let ghost views = input_views(inputs@);
    put_u64(out, inputs.len() as u64);
    let ghost counted = out@;
    let mut i: usize = 0;
    while i < inputs.len()
        invariant
            i <= inputs.len(),
            views == input_views(inputs@),
            out@ == counted + inputs_bytes(views.take(i as int)),
            forall|j: int| 0 <= j < i ==> input_fits(#[trigger] views[j]),
        decreases inputs.len() - i,
    {
        encode_input(out, &inputs[i]);
        assert(views.take(i + 1).drop_last() =~= views.take(i as int));
        assert(out@ =~= counted + inputs_bytes(views.take(i + 1)));
        i += 1;
    }
    assert(views.take(i as int) =~= views);
}

/// Appends the content encoding of one input.
pub fn encode_input_content(out: &mut Vec<u8>, input: &TransactionInput)
    ensures
        final(out)@ == old(out)@ + input_content_bytes(input@),
{
    let ghost before = out@;
    put_text(out, input.signature.as_str());
    put_raw(out, input.previous_tx_hash.as_slice());
    put_u64(out, input.amount);
    put_u64(out, input.nonce);
    put_u32(out, input.index);
    assert(out@ =~= before + input_content_bytes(input@));
}

/// Appends the count of `inputs` and the content encoding of each.
pub fn encode_inputs_content(out: &mut Vec<u8>, inputs: &Vec<TransactionInput>)
    ensures
        final(out)@ == old(out)@ + spec_u64_to_le_bytes(inputs@.len() as u64)
            + inputs_content_bytes(input_views(inputs@)),
{
    let ghost views = input_views(inputs@);
    put_u64(out, inputs.len() as u64);
    let ghost counted = out@;
    let mut i: usize = 0;
    while i < inputs.len()
        invariant
            i <= inputs.len(),
            views == input_views(inputs@),
            out@ == counted + inputs_content_bytes(views.take(i as int)),
        decreases inputs.len() - i,
    {
        encode_input_content(out, &inputs[i]);
        assert(views.take(i + 1).drop_last() =~= views.take(i as int));
        assert(out@ =~= counted + inputs_content_bytes(views.take(i + 1)));
        i += 1;
    }
    assert(views.take(i as int) =~= views);
}

/// Appends the encoding of the metadata.
pub fn encode_metadata(out: &mut Vec<u8>, metadata: &TransactionMetadata)
    ensures
        final(out)@ == old(out)@ + metadata_bytes(metadata@),
        metadata_fits(metadata@),
{
    let ghost before = out@;
    put_raw(out, metadata.transaction_hash().as_slice());
    put_text(out, metadata.timestamp().as_str());
    out.push(status_byte(metadata.status()));
    out.push(kind_byte(metadata.kind()));
    put_bytes(out, metadata.signature().as_slice());
    assert(out@ =~= before + metadata_bytes(metadata@));
}

/// Appends the full encoding of one transaction.
pub fn encode_transaction(out: &mut Vec<u8>, transaction: &Transaction)
    ensures
        final(out)@ == old(out)@ + transaction_bytes(transaction@),
        transaction_fits(transaction@),
{
    let ghost before = out@;
    encode_inputs(out, transaction.inputs());
    encode_outputs(out, transaction.outputs());
    encode_metadata(out, transaction.metadata());
    reveal(transaction_bytes);
    reveal(transaction_fits);
    assert(out@ =~= before + transaction_bytes(transaction@));
}

/// Appends the count of `transactions` and the full encoding of each.
pub fn encode_transactions(out: &mut Vec<u8>, transactions: &Vec<Transaction>)
    ensures
        final(out)@ == old(out)@ + transaction_list_bytes(transaction_views(transactions@)),
        transactions@.len() <= u64::MAX,
        transactions_fit(transaction_views(transactions@)),
{
    let ghost before = out@;
    let ghost views = transaction_views(transactions@);
    put_u64(out, transactions.len() as u64);
    let ghost counted = out@;
    let mut i: usize = 0;
    while i < transactions.len()
        invariant
            i <= transactions.len(),
            views == transaction_views(transactions@),
            out@ == counted + transactions_bytes(views.take(i as int)),
            forall|j: int| 0 <= j < i ==> transaction_fits(#[trigger] views[j]),
        decreases transactions.len() - i,
    {
        encode_transaction(out, &transactions[i]);
        assert(views.take(i + 1).drop_last() =~= views.take(i as int));
        assert(out@ =~= counted + transactions_bytes(views.take(i + 1)));
        i += 1;
    }
    assert(views.take(i as int) =~= views);
    assert(out@ =~= before + transaction_list_bytes(views));
}

/// The content encoding of a transaction in the making.
pub fn encode_content(
    inputs: &Vec<TransactionInput>,
    outputs: &Vec<TransactionOutput>,
    timestamp: &str,
    status: TransactionStatus,
) -> (bytes: Vec<u8>)
    ensures
        bytes@ == content_bytes(input_views(inputs@), output_views(outputs@), timestamp@, status),
{
    let mut bytes: Vec<u8> = Vec::new();
    encode_inputs_content(&mut bytes, inputs);
    encode_outputs(&mut bytes, outputs);
    put_text(&mut bytes, timestamp);
    bytes.push(status_byte(status));
    assert(bytes@ =~= content_bytes(
        input_views(inputs@),
        output_views(outputs@),
        timestamp@,
        status,
    ));
    bytes
}

/// An encoded output in front of anything is read back in one way only.
pub proof fn lemma_output_cancels(
    a: TransactionOutputView,
    rest_a: Seq<u8>,
    b: TransactionOutputView,
    rest_b: Seq<u8>,
)
    requires
        output_bytes(a) + rest_a == output_bytes(b) + rest_b,
        output_fits(a),
        output_fits(b),
    ensures
        a == b,
        rest_a == rest_b,
{
    let tail_a = spec_u64_to_le_bytes(a.amount) + rest_a;
    let tail_b = spec_u64_to_le_bytes(b.amount) + rest_b;
    assert(output_bytes(a) + rest_a =~= framed_text(a.recipient_address) + tail_a);
    assert(output_bytes(b) + rest_b =~= framed_text(b.recipient_address) + tail_b);
    lemma_framed_text_cancels(a.recipient_address, tail_a, b.recipient_address, tail_b);
    lemma_u64_cancels(a.amount, rest_a, b.amount, rest_b);
}

/// The encodings of a non-empty sequence of outputs start with that of the
/// first.
pub proof fn lemma_outputs_unfold(outputs: Seq<TransactionOutputView>)
    requires
        outputs.len() > 0,
    ensures
        outputs_bytes(outputs) == output_bytes(outputs[0]) + outputs_bytes(outputs.drop_first()),
    decreases outputs.len(),
{
    if outputs.len() == 1 {
        assert(outputs.drop_last() =~= Seq::<TransactionOutputView>::empty());
        assert(outputs.drop_first() =~= Seq::<TransactionOutputView>::empty());
        assert(outputs_bytes(outputs) =~= output_bytes(outputs[0]) + outputs_bytes(
            outputs.drop_first(),
        ));
    } else {
        lemma_outputs_unfold(outputs.drop_last());
        assert(outputs.drop_first().drop_last() =~= outputs.drop_last().drop_first());
        assert(outputs_bytes(outputs) =~= output_bytes(outputs[0]) + outputs_bytes(
            outputs.drop_first(),
        ));
    }
}

/// As many encoded outputs in front of anything are read back in one way
/// only.
pub proof fn lemma_outputs_cancel(
    a: Seq<TransactionOutputView>,
    rest_a: Seq<u8>,
    b: Seq<TransactionOutputView>,
    rest_b: Seq<u8>,
)
    requires
        outputs_bytes(a) + rest_a == outputs_bytes(b) + rest_b,
        a.len() == b.len(),
        outputs_fit(a),
        outputs_fit(b),
    ensures
        a == b,
        rest_a == rest_b,
    decreases a.len(),
{
    if a.len() == 0 {
        assert(outputs_bytes(a) + rest_a =~= rest_a);
        assert(outputs_bytes(b) + rest_b =~= rest_b);
        assert(a =~= b);
    } else {
        lemma_outputs_unfold(a);
        lemma_outputs_unfold(b);
        let tail_a = outputs_bytes(a.drop_first()) + rest_a;
        let tail_b = outputs_bytes(b.drop_first()) + rest_b;
        assert(outputs_bytes(a) + rest_a =~= output_bytes(a[0]) + tail_a);
        assert(outputs_bytes(b) + rest_b =~= output_bytes(b[0]) + tail_b);
        lemma_output_cancels(a[0], tail_a, b[0], tail_b);
        assert forall|i: int| 0 <= i < a.drop_first().len() implies output_fits(
            #[trigger] a.drop_first()[i],
        ) by {
            assert(a.drop_first()[i] == a[i + 1]);
        }
        assert forall|i: int| 0 <= i < b.drop_first().len() implies output_fits(
            #[trigger] b.drop_first()[i],
        ) by {
            assert(b.drop_first()[i] == b[i + 1]);
        }
        lemma_outputs_cancel(a.drop_first(), rest_a, b.drop_first(), rest_b);
        assert(a =~= seq![a[0]] + a.drop_first());
        assert(b =~= seq![b[0]] + b.drop_first());
    }
}

/// An encoded input in front of anything is read back in one way only.
pub proof fn lemma_input_cancels(
    a: TransactionInputView,
    rest_a: Seq<u8>,
    b: TransactionInputView,
    rest_b: Seq<u8>,
)
    requires
        input_bytes(a) + rest_a == input_bytes(b) + rest_b,
        input_fits(a),
        input_fits(b),
    ensures
        a == b,
        rest_a == rest_b,
{
    let nonce_a = spec_u64_to_le_bytes(a.nonce) + rest_a;
    let nonce_b = spec_u64_to_le_bytes(b.nonce) + rest_b;
    let amount_a = spec_u64_to_le_bytes(a.amount) + nonce_a;
    let amount_b = spec_u64_to_le_bytes(b.amount) + nonce_b;
    let key_a = framed(a.public_key) + amount_a;
    let key_b = framed(b.public_key) + amount_b;
    let signature_a = framed_text(a.signature) + key_a;
    let signature_b = framed_text(b.signature) + key_b;
    let index_a = spec_u32_to_le_bytes(a.index) + signature_a;
    let index_b = spec_u32_to_le_bytes(b.index) + signature_b;
    assert(input_bytes(a) + rest_a =~= a.previous_tx_hash + index_a);
    assert(input_bytes(b) + rest_b =~= b.previous_tx_hash + index_b);
    lemma_same_length_cancels(a.previous_tx_hash, index_a, b.previous_tx_hash, index_b);
    lemma_u32_cancels(a.index, signature_a, b.index, signature_b);
    lemma_framed_text_cancels(a.signature, key_a, b.signature, key_b);
    lemma_framed_cancels(a.public_key, amount_a, b.public_key, amount_b);
    lemma_u64_cancels(a.amount, nonce_a, b.amount, nonce_b);
    lemma_u64_cancels(a.nonce, rest_a, b.nonce, rest_b);
}

/// The encodings of a non-empty sequence of inputs start with that of the
/// first.
pub proof fn lemma_inputs_unfold(inputs: Seq<TransactionInputView>)
    requires
        inputs.len() > 0,
    ensures
        inputs_bytes(inputs) == input_bytes(inputs[0]) + inputs_bytes(inputs.drop_first()),
    decreases inputs.len(),
{
    if inputs.len() == 1 {
        assert(inputs.drop_last() =~= Seq::<TransactionInputView>::empty());
        assert(inputs.drop_first() =~= Seq::<TransactionInputView>::empty());
        assert(inputs_bytes(inputs) =~= input_bytes(inputs[0]) + inputs_bytes(
            inputs.drop_first(),
        ));
    } else {
        lemma_inputs_unfold(inputs.drop_last());
        assert(inputs.drop_first().drop_last() =~= inputs.drop_last().drop_first());
        assert(inputs_bytes(inputs) =~= input_bytes(inputs[0]) + inputs_bytes(
            inputs.drop_first(),
        ));
    }
}

/// As many encoded inputs in front of anything are read back in one way
/// only.
pub proof fn lemma_inputs_cancel(
    a: Seq<TransactionInputView>,
    rest_a: Seq<u8>,
    b: Seq<TransactionInputView>,
    rest_b: Seq<u8>,
)
    requires
        inputs_bytes(a) + rest_a == inputs_bytes(b) + rest_b,
        a.len() == b.len(),
        inputs_fit(a),
        inputs_fit(b),
    ensures
        a == b,
        rest_a == rest_b,
    decreases a.len(),
{
    if a.len() == 0 {
        assert(inputs_bytes(a) + rest_a =~= rest_a);
        assert(inputs_bytes(b) + rest_b =~= rest_b);
        assert(a =~= b);
    } else {
        lemma_inputs_unfold(a);
        lemma_inputs_unfold(b);
        let tail_a = inputs_bytes(a.drop_first()) + rest_a;
        let tail_b = inputs_bytes(b.drop_first()) + rest_b;
        assert(inputs_bytes(a) + rest_a =~= input_bytes(a[0]) + tail_a);
        assert(inputs_bytes(b) + rest_b =~= input_bytes(b[0]) + tail_b);
        lemma_input_cancels(a[0], tail_a, b[0], tail_b);
        assert forall|i: int| 0 <= i < a.drop_first().len() implies input_fits(
            #[trigger] a.drop_first()[i],
        ) by {
            assert(a.drop_first()[i] == a[i + 1]);
        }
        assert forall|i: int| 0 <= i < b.drop_first().len() implies input_fits(
            #[trigger] b.drop_first()[i],
        ) by {
            assert(b.drop_first()[i] == b[i + 1]);
        }
        lemma_inputs_cancel(a.drop_first(), rest_a, b.drop_first(), rest_b);
        assert(a =~= seq![a[0]] + a.drop_first());
        assert(b =~= seq![b[0]] + b.drop_first());
    }
}

/// Encoded metadata in front of anything is read back in one way only.
pub proof fn lemma_metadata_cancels(
    a: TransactionMetadataView,
    rest_a: Seq<u8>,
    b: TransactionMetadataView,
    rest_b: Seq<u8>,
)
    requires
        metadata_bytes(a) + rest_a == metadata_bytes(b) + rest_b,
        metadata_fits(a),
        metadata_fits(b),
    ensures
        a == b,
        rest_a == rest_b,
{
    let tags_a = seq![status_tag(a.status), kind_tag(a.kind)];
    let tags_b = seq![status_tag(b.status), kind_tag(b.kind)];
    let signature_a = framed(a.signature) + rest_a;
    let signature_b = framed(b.signature) + rest_b;
    let tagged_a = tags_a + signature_a;
    let tagged_b = tags_b + signature_b;
    let stamped_a = framed_text(a.timestamp) + tagged_a;
    let stamped_b = framed_text(b.timestamp) + tagged_b;
    assert(metadata_bytes(a) + rest_a =~= a.transaction_hash + stamped_a);
    assert(metadata_bytes(b) + rest_b =~= b.transaction_hash + stamped_b);
    lemma_same_length_cancels(a.transaction_hash, stamped_a, b.transaction_hash, stamped_b);
    lemma_framed_text_cancels(a.timestamp, tagged_a, b.timestamp, tagged_b);
    lemma_same_length_cancels(tags_a, signature_a, tags_b, signature_b);
    assert(tags_a[0] == tags_b[0]);
    assert(tags_a[1] == tags_b[1]);
    lemma_framed_cancels(a.signature, rest_a, b.signature, rest_b);
}

/// A counted sequence of encoded inputs in front of anything is read back
/// in one way only.
pub proof fn lemma_counted_inputs_cancel(
    a: Seq<TransactionInputView>,
    rest_a: Seq<u8>,
    b: Seq<TransactionInputView>,
    rest_b: Seq<u8>,
)
    requires
        spec_u64_to_le_bytes(a.len() as u64) + inputs_bytes(a) + rest_a == spec_u64_to_le_bytes(
            b.len() as u64,
        ) + inputs_bytes(b) + rest_b,
        a.len() <= u64::MAX,
        b.len() <= u64::MAX,
        inputs_fit(a),
        inputs_fit(b),
    ensures
        a == b,
        rest_a == rest_b,
{
    let listed_a = inputs_bytes(a) + rest_a;
    let listed_b = inputs_bytes(b) + rest_b;
    assert(spec_u64_to_le_bytes(a.len() as u64) + inputs_bytes(a) + rest_a
        =~= spec_u64_to_le_bytes(a.len() as u64) + listed_a);
    assert(spec_u64_to_le_bytes(b.len() as u64) + inputs_bytes(b) + rest_b
        =~= spec_u64_to_le_bytes(b.len() as u64) + listed_b);
    lemma_u64_cancels(a.len() as u64, listed_a, b.len() as u64, listed_b);
    lemma_inputs_cancel(a, rest_a, b, rest_b);
}

/// A counted sequence of encoded outputs in front of anything is read back
/// in one way only.
pub proof fn lemma_counted_outputs_cancel(
    a: Seq<TransactionOutputView>,
    rest_a: Seq<u8>,
    b: Seq<TransactionOutputView>,
    rest_b: Seq<u8>,
)
    requires
        spec_u64_to_le_bytes(a.len() as u64) + outputs_bytes(a) + rest_a == spec_u64_to_le_bytes(
            b.len() as u64,
        ) + outputs_bytes(b) + rest_b,
        a.len() <= u64::MAX,
        b.len() <= u64::MAX,
        outputs_fit(a),
        outputs_fit(b),
    ensures
        a == b,
        rest_a == rest_b,
{
    let listed_a = outputs_bytes(a) + rest_a;
    let listed_b = outputs_bytes(b) + rest_b;
    assert(spec_u64_to_le_bytes(a.len() as u64) + outputs_bytes(a) + rest_a
        =~= spec_u64_to_le_bytes(a.len() as u64) + listed_a);
    assert(spec_u64_to_le_bytes(b.len() as u64) + outputs_bytes(b) + rest_b
        =~= spec_u64_to_le_bytes(b.len() as u64) + listed_b);
    lemma_u64_cancels(a.len() as u64, listed_a, b.len() as u64, listed_b);
    lemma_outputs_cancel(a, rest_a, b, rest_b);
}

/// An encoded transaction in front of anything is read back in one way
/// only.
pub proof fn lemma_transaction_cancels(
    a: TransactionView,
    rest_a: Seq<u8>,
    b: TransactionView,
    rest_b: Seq<u8>,
)
    requires
        transaction_bytes(a) + rest_a == transaction_bytes(b) + rest_b,
        transaction_fits(a),
        transaction_fits(b),
    ensures
        a == b,
        rest_a == rest_b,
{
    reveal(transaction_bytes);
    reveal(transaction_fits);
    let metadata_a = metadata_bytes(a.metadata) + rest_a;
    let metadata_b = metadata_bytes(b.metadata) + rest_b;
    let outputs_a = spec_u64_to_le_bytes(a.outputs.len() as u64) + outputs_bytes(a.outputs)
        + metadata_a;
    let outputs_b = spec_u64_to_le_bytes(b.outputs.len() as u64) + outputs_bytes(b.outputs)
        + metadata_b;
    assert(transaction_bytes(a) + rest_a =~= spec_u64_to_le_bytes(a.inputs.len() as u64)
        + inputs_bytes(a.inputs) + outputs_a);
    assert(transaction_bytes(b) + rest_b =~= spec_u64_to_le_bytes(b.inputs.len() as u64)
        + inputs_bytes(b.inputs) + outputs_b);
    lemma_counted_inputs_cancel(a.inputs, outputs_a, b.inputs, outputs_b);
    lemma_counted_outputs_cancel(a.outputs, metadata_a, b.outputs, metadata_b);
    lemma_metadata_cancels(a.metadata, rest_a, b.metadata, rest_b);
}

/// The encodings of a non-empty sequence of transactions start with that of
/// the first.
pub proof fn lemma_transactions_unfold(transactions: Seq<TransactionView>)
    requires
        transactions.len() > 0,
    ensures
        transactions_bytes(transactions) == transaction_bytes(transactions[0])
            + transactions_bytes(transactions.drop_first()),
    decreases transactions.len(),
{
    if transactions.len() == 1 {
        assert(transactions.drop_last() =~= Seq::<TransactionView>::empty());
        assert(transactions.drop_first() =~= Seq::<TransactionView>::empty());
        assert(transactions_bytes(transactions) =~= transaction_bytes(transactions[0])
            + transactions_bytes(transactions.drop_first()));
    } else {
        lemma_transactions_unfold(transactions.drop_last());
        assert(transactions.drop_first().drop_last() =~= transactions.drop_last().drop_first());
        assert(transactions_bytes(transactions) =~= transaction_bytes(transactions[0])
            + transactions_bytes(transactions.drop_first()));
    }
}

/// As many encoded transactions in front of anything are read back in one
/// way only.
pub proof fn lemma_transactions_cancel(
    a: Seq<TransactionView>,
    rest_a: Seq<u8>,
    b: Seq<TransactionView>,
    rest_b: Seq<u8>,
)
    requires
        transactions_bytes(a) + rest_a == transactions_bytes(b) + rest_b,
        a.len() == b.len(),
        transactions_fit(a),
        transactions_fit(b),
    ensures
        a == b,
        rest_a == rest_b,
    decreases a.len(),
{
    if a.len() == 0 {
        assert(transactions_bytes(a) + rest_a =~= rest_a);
        assert(transactions_bytes(b) + rest_b =~= rest_b);
        assert(a =~= b);
    } else {
        lemma_transactions_unfold(a);
        lemma_transactions_unfold(b);
        let tail_a = transactions_bytes(a.drop_first()) + rest_a;
        let tail_b = transactions_bytes(b.drop_first()) + rest_b;
        assert(transactions_bytes(a) + rest_a =~= transaction_bytes(a[0]) + tail_a);
        assert(transactions_bytes(b) + rest_b =~= transaction_bytes(b[0]) + tail_b);
        lemma_transaction_cancels(a[0], tail_a, b[0], tail_b);
        assert forall|i: int| 0 <= i < a.drop_first().len() implies transaction_fits(
            #[trigger] a.drop_first()[i],
        ) by {
            assert(a.drop_first()[i] == a[i + 1]);
        }
        assert forall|i: int| 0 <= i < b.drop_first().len() implies transaction_fits(
            #[trigger] b.drop_first()[i],
        ) by {
            assert(b.drop_first()[i] == b[i + 1]);
        }
        lemma_transactions_cancel(a.drop_first(), rest_a, b.drop_first(), rest_b);
        assert(a =~= seq![a[0]] + a.drop_first());
        assert(b =~= seq![b[0]] + b.drop_first());
    }
}

/// An encoded list of transactions in front of anything is read back in one
/// way only.
pub proof fn lemma_transaction_list_cancels(
    a: Seq<TransactionView>,
    rest_a: Seq<u8>,
    b: Seq<TransactionView>,
    rest_b: Seq<u8>,
)
    requires
        transaction_list_bytes(a) + rest_a == transaction_list_bytes(b) + rest_b,
        a.len() <= u64::MAX,
        b.len() <= u64::MAX,
        transactions_fit(a),
        transactions_fit(b),
    ensures
        a == b,
        rest_a == rest_b,
{
    let listed_a = transactions_bytes(a) + rest_a;
    let listed_b = transactions_bytes(b) + rest_b;
    assert(transaction_list_bytes(a) + rest_a =~= spec_u64_to_le_bytes(a.len() as u64) + listed_a);
    assert(transaction_list_bytes(b) + rest_b =~= spec_u64_to_le_bytes(b.len() as u64) + listed_b);
    lemma_u64_cancels(a.len() as u64, listed_a, b.len() as u64, listed_b);
    lemma_transactions_cancel(a, rest_a, b, rest_b);
}

} // verus!

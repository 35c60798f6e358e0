//! Records of byte-string fields, as the `csv` crate provides them.
//!
//! Nothing here is proved: the items below state what is taken on trust from
//! `csv`. A record is opaque; what is known of it is the sequence of its
//! fields.

use csv::ByteRecord;
use vstd::prelude::*;

verus! {

/// `csv::ByteRecord`, carried as an opaque value.
#[verifier::external_type_specification]
#[verifier::external_body]
pub struct ExByteRecord(csv::ByteRecord);

/// The fields of a record, in order, each as its raw bytes.
pub uninterp spec fn record_fields(record: ByteRecord) -> Seq<Seq<u8>>;

/// `ByteRecord::len`: the number of fields.
pub assume_specification[ csv::ByteRecord::len ](record: &ByteRecord) -> (n: usize)
    ensures
        n == record_fields(*record).len(),
;

/// `ByteRecord::get`: the field at position `i`, or `None` when the record
/// has no such position.
pub assume_specification[ csv::ByteRecord::get ](
    record: &ByteRecord,
    i: usize,
) -> (field: Option<&[u8]>)
    ensures
        match field {
            Some(bytes) => {
                &&& i < record_fields(*record).len()
                &&& bytes@ == record_fields(*record)[i as int]
            },
            None => i >= record_fields(*record).len(),
        },
;

} // verus!

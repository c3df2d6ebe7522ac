//! The schema-gated store operation and wide-integer column stores.
//!
//! A store is a no-op when the column is disabled (the value is discarded),
//! and appends exactly one entry when it is enabled; a wide store applies the
//! column's encoding first and fails the whole row on an encoding error,
//! never leaving a partial append.

use crate::schema::Encoding;
use crate::types::CollectError;
use crate::wide::all_zero;
use crate::wide::be_val;
use crate::wide::dec_seq;
use crate::wide::hex_of;
use crate::wide::U256;
use vstd::prelude::*;

verus! {

/// The abstract content of one stored wide value: an encoded byte string, or
/// a pair of 64-bit words.
pub enum WideCell {
    Bytes(Seq<u8>),
    Pair(u64, u64),
}

/// What storing the 32 bytes `b` under `enc` leaves in the column.
pub open spec fn encoded_cell(enc: Encoding, b: Seq<u8>) -> WideCell {
    match enc {
        Encoding::Binary => WideCell::Bytes(b),
        Encoding::Hex => WideCell::Bytes(seq![48u8, 120u8] + hex_of(b)),
        Encoding::Decimal => WideCell::Bytes(dec_seq(be_val(b))),
        Encoding::Words => WideCell::Pair(
            be_val(b.subrange(16, 24)) as u64,
            be_val(b.subrange(24, 32)) as u64,
        ),
    }
}

/// Whether the 32 bytes `b` are representable under `enc`: only the words
/// encoding can fail, on a value of 2^128 or more.
pub open spec fn enc_ok(enc: Encoding, b: Seq<u8>) -> bool {
    enc is Words ==> all_zero(b.take(16))
}

/// A column of encoded wide values. The `bin` store carries the three
/// byte-string encodings; the word pair lives in `hi`/`lo`.
pub struct EncodedColumn {
    pub enc: Encoding,
    pub bin: Vec<Vec<u8>>,
    pub hi: Vec<u64>,
    pub lo: Vec<u64>,
}

impl EncodedColumn {
    pub open spec fn wf(&self) -> bool {
        if self.enc is Words {
            self.bin@.len() == 0 && self.hi@.len() == self.lo@.len()
        } else {
            self.hi@.len() == 0 && self.lo@.len() == 0
        }
    }

    /// The stored cells, in row order.
    pub open spec fn cells(&self) -> Seq<WideCell> {
        if self.enc is Words {
            Seq::new(self.hi@.len(), |i: int| WideCell::Pair(self.hi@[i], self.lo@[i]))
        } else {
            self.bin@.map_values(|x: Vec<u8>| WideCell::Bytes(x@))
        }
    }

    pub open spec fn len(&self) -> nat {
        self.cells().len()
    }

    /// An empty column in the given encoding.
    pub fn new(enc: Encoding) -> (r: EncodedColumn)
        ensures
            r.wf(),
            r.enc == enc,
            r.cells() =~= Seq::<WideCell>::empty(),
    {
        EncodedColumn { enc, bin: Vec::new(), hi: Vec::new(), lo: Vec::new() }
    }

    /// Appends one value in this column's encoding; an unrepresentable value
    /// is an encoding error and leaves the column unchanged.
    pub fn push_value(&mut self, v: &U256) -> (r: Result<(), CollectError>)
        requires
            old(self).wf(),
            v.wf(),
        ensures
            final(self).wf(),
            final(self).enc == old(self).enc,
            r is Ok <==> enc_ok(old(self).enc, v.rep()),
            r is Ok ==> final(self).cells() == old(self).cells().push(
                encoded_cell(old(self).enc, v.rep()),
            ),
            r matches Err(e) ==> e == CollectError::EncodingError && final(self).cells() == old(
                self,
            ).cells(),
    {
        match self.enc {
            Encoding::Binary => {
                let bytes = v.to_be_bytes();
                proof {
                    assert(self.bin@.push(bytes).map_values(|x: Vec<u8>| WideCell::Bytes(x@))
                        =~= self.bin@.map_values(|x: Vec<u8>| WideCell::Bytes(x@)).push(
                        WideCell::Bytes(bytes@),
                    ));
                }
                self.bin.push(bytes);
                Ok(())
            },
            Encoding::Hex => {
                let bytes = v.encode_hex();
                proof {
                    assert(self.bin@.push(bytes).map_values(|x: Vec<u8>| WideCell::Bytes(x@))
                        =~= self.bin@.map_values(|x: Vec<u8>| WideCell::Bytes(x@)).push(
                        WideCell::Bytes(bytes@),
                    ));
                }
                self.bin.push(bytes);
                Ok(())
            },
            Encoding::Decimal => {
                let bytes = v.encode_decimal();
                proof {
                    assert(self.bin@.push(bytes).map_values(|x: Vec<u8>| WideCell::Bytes(x@))
                        =~= self.bin@.map_values(|x: Vec<u8>| WideCell::Bytes(x@)).push(
                        WideCell::Bytes(bytes@),
                    ));
                }
                self.bin.push(bytes);
                Ok(())
            },
            Encoding::Words => {
                match v.encode_words() {
                    Ok(w) => {
                        self.hi.push(w.0);
                        self.lo.push(w.1);
                        proof {
                            assert(self.cells() =~= old(self).cells().push(
                                encoded_cell(old(self).enc, v.rep()),
                            ));
                        }
                        Ok(())
                    },
                    Err(e) => Err(e),
                }
            },
        }
    }
}

/// A column of optional encoded wide values; an absent value is stored as an
/// absent cell.
pub struct OptEncodedColumn {
    pub enc: Encoding,
    pub bin: Vec<Option<Vec<u8>>>,
    pub hi: Vec<Option<u64>>,
    pub lo: Vec<Option<u64>>,
}

/// The optional-cell analogue of `enc_ok`: an absent value always stores.
pub open spec fn enc_ok_opt(enc: Encoding, v: Option<U256>) -> bool {
    v matches Some(u) ==> enc_ok(enc, u.rep())
}

/// The optional-cell analogue of `encoded_cell`.
pub open spec fn encoded_cell_opt(enc: Encoding, v: Option<U256>) -> Option<WideCell> {
    match v {
        Some(u) => Some(encoded_cell(enc, u.rep())),
        None => None,
    }
}

impl OptEncodedColumn {
    pub open spec fn wf(&self) -> bool {
        if self.enc is Words {
            self.bin@.len() == 0 && self.hi@.len() == self.lo@.len() && (forall|i: int|
                0 <= i < self.hi@.len() ==> ((#[trigger] self.hi@[i]) is Some <==> self.lo@[i]
                    is Some))
        } else {
            self.hi@.len() == 0 && self.lo@.len() == 0
        }
    }

    pub open spec fn cells(&self) -> Seq<Option<WideCell>> {
        if self.enc is Words {
            Seq::new(
                self.hi@.len(),
                |i: int|
                    match self.hi@[i] {
                        Some(h) => Some(WideCell::Pair(h, self.lo@[i]->0)),
                        None => None,
                    },
            )
        } else {
            self.bin@.map_values(
                |x: Option<Vec<u8>>|
                    match x {
                        Some(b) => Some(WideCell::Bytes(b@)),
                        None => None,
                    },
            )
        }
    }

    pub open spec fn len(&self) -> nat {
        self.cells().len()
    }

    pub fn new(enc: Encoding) -> (r: OptEncodedColumn)
        ensures
            r.wf(),
            r.enc == enc,
            r.cells() =~= Seq::<Option<WideCell>>::empty(),
    {
        OptEncodedColumn { enc, bin: Vec::new(), hi: Vec::new(), lo: Vec::new() }
    }

    /// Appends one optional value; absence is a valid stored state, not an
    /// error.
    pub fn push_opt_value(&mut self, v: &Option<U256>) -> (r: Result<(), CollectError>)
        requires
            old(self).wf(),
            v matches Some(u) ==> u.wf(),
        ensures
            final(self).wf(),
            final(self).enc == old(self).enc,
            r is Ok <==> enc_ok_opt(old(self).enc, *v),
            r is Ok ==> final(self).cells() == old(self).cells().push(
                encoded_cell_opt(old(self).enc, *v),
            ),
            r matches Err(e) ==> e == CollectError::EncodingError && final(self).cells() == old(
                self,
            ).cells(),
    {
        match v {
            None => {
                match self.enc {
                    Encoding::Words => {
                        self.hi.push(None);
                        self.lo.push(None);
                        proof {
                            assert(self.cells() =~= old(self).cells().push(None));
                        }
                        Ok(())
                    },
                    _ => {
                        proof {
                            assert(self.bin@.push(None).map_values(
                                |x: Option<Vec<u8>>|
                                    match x {
                                        Some(b) => Some(WideCell::Bytes(b@)),
                                        None => None,
                                    },
                            ) =~= self.cells().push(None));
                        }
                        self.bin.push(None);
                        Ok(())
                    },
                }
            },
            Some(u) => {
                match self.enc {
                    Encoding::Binary => {
                        let bytes = u.to_be_bytes();
                        proof {
                            assert(self.bin@.push(Some(bytes)).map_values(
                                |x: Option<Vec<u8>>|
                                    match x {
                                        Some(b) => Some(WideCell::Bytes(b@)),
                                        None => None,
                                    },
                            ) =~= self.cells().push(Some(WideCell::Bytes(bytes@))));
                        }
                        self.bin.push(Some(bytes));
                        Ok(())
                    },
                    Encoding::Hex => {
                        let bytes = u.encode_hex();
                        proof {
                            assert(self.bin@.push(Some(bytes)).map_values(
                                |x: Option<Vec<u8>>|
                                    match x {
                                        Some(b) => Some(WideCell::Bytes(b@)),
                                        None => None,
                                    },
                            ) =~= self.cells().push(Some(WideCell::Bytes(bytes@))));
                        }
                        self.bin.push(Some(bytes));
                        Ok(())
                    },
                    Encoding::Decimal => {
                        let bytes = u.encode_decimal();
                        proof {
                            assert(self.bin@.push(Some(bytes)).map_values(
                                |x: Option<Vec<u8>>|
                                    match x {
                                        Some(b) => Some(WideCell::Bytes(b@)),
                                        None => None,
                                    },
                            ) =~= self.cells().push(Some(WideCell::Bytes(bytes@))));
                        }
                        self.bin.push(Some(bytes));
                        Ok(())
                    },
                    Encoding::Words => {
                        match u.encode_words() {
                            Ok(w) => {
                                self.hi.push(Some(w.0));
                                self.lo.push(Some(w.1));
                                proof {
                                    assert(self.cells() =~= old(self).cells().push(
                                        encoded_cell_opt(old(self).enc, Some(*u)),
                                    ));
                                }
                                Ok(())
                            },
                            Err(e) => Err(e),
                        }
                    },
                }
            },
        }
    }
}

/// The schema-gated store operation for a plain column: a no-op when the
/// column is disabled, an append of exactly one value when it is enabled.
pub fn store<T>(enabled: bool, column: &mut Vec<T>, value: T)
    ensures
        enabled ==> final(column)@ == old(column)@.push(value),
        !enabled ==> final(column)@ == old(column)@,
{
    if enabled {
        column.push(value);
    }
}

/// The schema-gated store operation for a wide column: `spec` both enables
/// the column and names its encoding.
pub fn store_wide(spec_enc: &Option<Encoding>, column: &mut EncodedColumn, value: &U256) -> (r:
    Result<(), CollectError>)
    requires
        old(column).wf(),
        value.wf(),
        spec_enc matches Some(e) ==> old(column).enc == e,
    ensures
        final(column).wf(),
        final(column).enc == old(column).enc,
        spec_enc is None ==> final(column).cells() == old(column).cells() && r is Ok,
        spec_enc is Some ==> (r is Ok <==> enc_ok(old(column).enc, value.rep())),
        spec_enc is Some && r is Ok ==> final(column).cells() == old(column).cells().push(
            encoded_cell(old(column).enc, value.rep()),
        ),
        r matches Err(e) ==> e == CollectError::EncodingError && final(column).cells() == old(
            column,
        ).cells(),
    {
    match spec_enc {
        Some(_) => column.push_value(value),
        None => Ok(()),
    }
}

/// The schema-gated store operation for an optional wide column.
pub fn store_wide_opt(
    spec_enc: &Option<Encoding>,
    column: &mut OptEncodedColumn,
    value: &Option<U256>,
) -> (r: Result<(), CollectError>)
    requires
        old(column).wf(),
        value matches Some(u) ==> u.wf(),
        spec_enc matches Some(e) ==> old(column).enc == e,
    ensures
        final(column).wf(),
        final(column).enc == old(column).enc,
        spec_enc is None ==> final(column).cells() == old(column).cells() && r is Ok,
        spec_enc is Some ==> (r is Ok <==> enc_ok_opt(old(column).enc, *value)),
        spec_enc is Some && r is Ok ==> final(column).cells() == old(column).cells().push(
            encoded_cell_opt(old(column).enc, *value),
        ),
        r matches Err(e) ==> e == CollectError::EncodingError && final(column).cells() == old(
            column,
        ).cells(),
{
    match spec_enc {
        Some(_) => column.push_opt_value(value),
        None => Ok(()),
    }
}

/// The deep view of a byte-vector column: each entry as its byte sequence.
pub open spec fn bytes_col_view(s: Seq<Vec<u8>>) -> Seq<Seq<u8>> {
    s.map_values(|x: Vec<u8>| x@)
}

/// The deep view of one optional byte vector.
pub open spec fn opt_bytes_view(x: Option<Vec<u8>>) -> Option<Seq<u8>> {
    match x {
        Some(v) => Some(v@),
        None => None,
    }
}

/// The deep view of an optional-byte-vector column.
pub open spec fn opt_bytes_col_view(s: Seq<Option<Vec<u8>>>) -> Seq<Option<Seq<u8>>> {
    s.map_values(|x: Option<Vec<u8>>| opt_bytes_view(x))
}

/// A copy of a byte vector.
pub fn copy_bytes(src: &Vec<u8>) -> (r: Vec<u8>)
    ensures
        r@ == src@,
{
    let mut out: Vec<u8> = Vec::new();
    let mut i: usize = 0;
    while i < src.len()
        invariant
            i <= src@.len(),
            out@ == src@.take(i as int),
        decreases src@.len() - i,
    {
        out.push(src[i]);
        proof {
            assert(src@.take(i + 1) =~= src@.take(i as int).push(src@[i as int]));
        }
        i = i + 1;
    }
    proof {
        assert(src@.take(src@.len() as int) =~= src@);
    }
    out
}

/// A copy of an optional byte vector.
pub fn copy_opt_bytes(src: &Option<Vec<u8>>) -> (r: Option<Vec<u8>>)
    ensures
        match src {
            Some(v) => r matches Some(w) && w@ == v@,
            None => r is None,
        },
{
    match src {
        Some(v) => Some(copy_bytes(v)),
        None => None,
    }
}

} // verus!

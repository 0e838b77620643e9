//! The two proof builders of the witness pipeline: the header-field
//! merkleizer, which ties the DA header's `data_hash` field to the header
//! hash, and the row-root builder, which ties the rows a blob spans to the
//! header's `data_hash`.

use vstd::prelude::*;
use crate::codec::bytes_eq;
use crate::merkle::{
    TmTree, TmRangeProof, tm_tree_new, tm_tree_push, tm_tree_root, tm_tree_build_range_proof,
    tm_tree_leaves, tm_root, tm_check, tm_leaf_hash, tm_range_siblings,
};
use crate::output::copy_range;
use crate::square::{RowSpan, SquareError, row_span, spec_geometry_ok, spec_first_row, spec_last_row};

verus! {

/// Number of fields in a DA header.
pub const HEADER_FIELD_COUNT: usize = 14;

/// Position of the `data_hash` field among the header's fields.
pub const DATA_HASH_FIELD_INDEX: usize = 6;

/// A DA header reduced to what the merkleizer reads: the canonical encodings
/// of its fourteen fields, in their fixed order, and the declared header
/// hash.
pub struct HeaderFields {
    pub fields: Vec<Vec<u8>>,
    pub hash: Vec<u8>,
}

impl HeaderFields {
    /// Exactly fourteen encoded fields and a 32-byte declared hash.
    pub open spec fn wf(&self) -> bool {
        &&& self.fields@.len() == HEADER_FIELD_COUNT
        &&& self.hash@.len() == 32
    }

    /// The encodings of the fields, as byte sequences.
    pub open spec fn field_views(&self) -> Seq<Seq<u8>> {
        self.fields@.map_values(|f: Vec<u8>| f@)
    }

    /// A header is valid when the root of the tree over its encoded fields
    /// equals its declared hash.
    pub open spec fn valid(&self) -> bool {
        tm_root(self.field_views()) == self.hash@
    }
}

/// Failures of the header merkleizer.
#[derive(Debug)]
pub enum HeaderError {
    /// The root computed over the header's fields differs from the header's
    /// declared hash.
    HeaderHashMismatch,
}

/// Merkleizes the header's fourteen encoded fields and proves the `data_hash`
/// field into the header hash.
///
/// Succeeds exactly when the computed root equals the declared header hash;
/// it then returns the encoded `data_hash` field and a range proof of that
/// field, at its fixed position, against the header hash.
pub fn generate_header_proofs(header: &HeaderFields) -> (r: Result<
    (Vec<u8>, TmRangeProof),
    HeaderError,
>)
    requires
        header.wf(),
    ensures
        r is Ok <==> header.valid(),
        r matches Ok((dh, p)) ==> {
            &&& dh@ == header.field_views()[DATA_HASH_FIELD_INDEX as int]
            &&& p.wf()
            &&& p@.start == DATA_HASH_FIELD_INDEX
            &&& p@.end == DATA_HASH_FIELD_INDEX + 1
            &&& p@.siblings == tm_range_siblings(
                header.field_views(),
                DATA_HASH_FIELD_INDEX as int,
                DATA_HASH_FIELD_INDEX + 1,
            )
            &&& tm_check(
                p@.siblings,
                DATA_HASH_FIELD_INDEX as int,
                header.hash@,
                seq![tm_leaf_hash(dh@)],
            )
        },
{
    let mut tree: TmTree = tm_tree_new();
    let n: usize = header.fields.len();
    let mut i: usize = 0;
    while i < n
        invariant
            i <= n,
            n == header.fields@.len(),
            tm_tree_leaves(tree) == header.field_views().subrange(0, i as int),
        decreases n - i,
    {
        tm_tree_push(&mut tree, &header.fields[i]);
        i = i + 1;
        proof {
            assert(tm_tree_leaves(tree) =~= header.field_views().subrange(0, i as int));
        }
    }
    proof {
        assert(header.field_views().subrange(0, n as int) =~= header.field_views());
    }
    let root = tm_tree_root(&mut tree);
    if !bytes_eq(&root, &header.hash) {
        return Err(HeaderError::HeaderHashMismatch);
    }
    let siblings = tm_tree_build_range_proof(
        &mut tree,
        DATA_HASH_FIELD_INDEX,
        DATA_HASH_FIELD_INDEX + 1,
    );
    let data_hash_field = &header.fields[DATA_HASH_FIELD_INDEX];
    let data_hash_bytes = copy_range(data_hash_field, 0, data_hash_field.len());
    let p = TmRangeProof {
        siblings,
        start: DATA_HASH_FIELD_INDEX as u64,
        end: (DATA_HASH_FIELD_INDEX + 1) as u64,
    };
    proof {
        assert(data_hash_bytes@ =~= header.field_views()[DATA_HASH_FIELD_INDEX as int]);
        assert(header.field_views().subrange(6, 7).map_values(|l: Seq<u8>| tm_leaf_hash(l))
            =~= seq![tm_leaf_hash(header.field_views()[6])]);
    }
    Ok((data_hash_bytes, p))
}

/// The part of the DA header the row builder reads: the row and column roots
/// of the extended square and the header's `data_hash`.
pub struct DataSquare {
    pub row_roots: Vec<Vec<u8>>,
    pub column_roots: Vec<Vec<u8>>,
    pub data_hash: Vec<u8>,
}

/// Width in bytes of one encoded namespaced root: two 29-byte namespace
/// bounds around a 32-byte digest.
pub const NAMESPACED_ROOT_LEN: usize = 90;

impl DataSquare {
    /// As many column roots as row roots, every root in its fixed 90-byte
    /// encoding, a 32-byte `data_hash`, and a square small enough that leaf
    /// positions fit the proof format.
    pub open spec fn wf(&self) -> bool {
        &&& self.row_roots@.len() == self.column_roots@.len()
        &&& self.row_roots@.len() <= 0x4000_0000
        &&& forall|i: int|
            0 <= i < self.row_roots@.len() ==> (#[trigger] self.row_roots@[i])@.len()
                == NAMESPACED_ROOT_LEN
        &&& forall|i: int|
            0 <= i < self.column_roots@.len() ==> (#[trigger] self.column_roots@[i])@.len()
                == NAMESPACED_ROOT_LEN
        &&& self.data_hash@.len() == 32
    }

    /// The leaves of the row-root tree: all row roots, then all column roots.
    pub open spec fn leaf_views(&self) -> Seq<Seq<u8>> {
        self.row_roots@.map_values(|r: Vec<u8>| r@) + self.column_roots@.map_values(
            |r: Vec<u8>| r@,
        )
    }

    /// The square is consistent when the root of the tree over its row and
    /// column roots equals the header's `data_hash`.
    pub open spec fn valid(&self) -> bool {
        tm_root(self.leaf_views()) == self.data_hash@
    }
}

/// Failures of the row-root builder.
#[derive(Debug)]
pub enum RowProofError {
    /// The blob's position does not fit the square.
    BadSquareGeometry,
    /// The root computed over the row and column roots differs from the
    /// header's `data_hash`.
    DataRootMismatch,
}

/// Builds the range proof over the rows a blob spans, against the header's
/// `data_hash`.
///
/// Succeeds exactly when the blob's geometry fits the square and the tree
/// over the row and column roots reproduces `data_hash`; it then returns the
/// proof of the spanned rows and those rows' roots, in order. The returned
/// proof ties the leaf hashes of exactly the selected row roots to
/// `data_hash`.
pub fn generate_row_proofs(square: &DataSquare, blob_index: u64, blob_size: u64) -> (r: Result<
    (TmRangeProof, Vec<Vec<u8>>),
    RowProofError,
>)
    requires
        square.wf(),
    ensures
        r is Ok <==> spec_geometry_ok(
            blob_index as int,
            blob_size as int,
            square.row_roots@.len() as int,
        ) && square.valid(),
        r matches Err(e) ==> (e is BadSquareGeometry <==> !spec_geometry_ok(
            blob_index as int,
            blob_size as int,
            square.row_roots@.len() as int,
        )),
        r matches Ok((p, selected)) ==> {
            let eds = square.row_roots@.len() as int;
            let first = spec_first_row(blob_index as int, eds);
            let last = spec_last_row(blob_index as int, blob_size as int, eds);
            {
                &&& p.wf()
                &&& p@.start == first
                &&& p@.end == last + 1
                &&& p@.siblings == tm_range_siblings(square.leaf_views(), first, last + 1)
                &&& selected@.map_values(|v: Vec<u8>| v@) == square.row_roots@.map_values(
                    |v: Vec<u8>| v@,
                ).subrange(first, last + 1)
                &&& tm_check(
                    p@.siblings,
                    first,
                    square.data_hash@,
                    selected@.map_values(|v: Vec<u8>| v@).map_values(
                        |l: Seq<u8>| tm_leaf_hash(l),
                    ),
                )
            }
        },
{
    let eds_size: u64 = square.row_roots.len() as u64;
    let span = match row_span(blob_index, blob_size, eds_size) {
        Ok(s) => s,
        Err(SquareError::BadSquareGeometry) => {
            return Err(RowProofError::BadSquareGeometry);
        },
    };
    let mut tree: TmTree = tm_tree_new();
    let ghost rows = square.row_roots@.map_values(|r: Vec<u8>| r@);
    let ghost cols = square.column_roots@.map_values(|r: Vec<u8>| r@);
    let n: usize = square.row_roots.len();
    let mut i: usize = 0;
    while i < n
        invariant
            i <= n,
            n == square.row_roots@.len(),
            rows == square.row_roots@.map_values(|r: Vec<u8>| r@),
            tm_tree_leaves(tree) == rows.subrange(0, i as int),
        decreases n - i,
    {
        tm_tree_push(&mut tree, &square.row_roots[i]);
        i = i + 1;
        proof {
            assert(tm_tree_leaves(tree) =~= rows.subrange(0, i as int));
        }
    }
    proof {
        assert(rows.subrange(0, n as int) =~= rows);
    }
    let m: usize = square.column_roots.len();
    let mut j: usize = 0;
    while j < m
        invariant
            j <= m,
            m == square.column_roots@.len(),
            rows == square.row_roots@.map_values(|r: Vec<u8>| r@),
            cols == square.column_roots@.map_values(|r: Vec<u8>| r@),
            tm_tree_leaves(tree) == rows + cols.subrange(0, j as int),
        decreases m - j,
    {
        tm_tree_push(&mut tree, &square.column_roots[j]);
        j = j + 1;
        proof {
            assert(tm_tree_leaves(tree) =~= rows + cols.subrange(0, j as int));
        }
    }
    proof {
        assert(rows + cols.subrange(0, m as int) =~= square.leaf_views());
    }
    let root = tm_tree_root(&mut tree);
    if !bytes_eq(&root, &square.data_hash) {
        return Err(RowProofError::DataRootMismatch);
    }
    let first: usize = span.first_row as usize;
    let end: usize = span.last_row as usize + 1;
    let siblings = tm_tree_build_range_proof(&mut tree, first, end);
    let mut selected: Vec<Vec<u8>> = Vec::new();
    let mut k: usize = first;
    while k < end
        invariant
            first <= k <= end,
            end <= square.row_roots@.len(),
            selected@.len() == k - first,
            forall|x: int|
                0 <= x < selected@.len() ==> (#[trigger] selected@[x])@ == square.row_roots@[
                    first + x
                ]@,
        decreases end - k,
    {
        let root_k = &square.row_roots[k];
        selected.push(copy_range(root_k, 0, root_k.len()));
        k = k + 1;
    }
    let p = TmRangeProof { siblings, start: span.first_row, end: span.last_row + 1 };
    proof {
        let eds = square.row_roots@.len() as int;
        let f = spec_first_row(blob_index as int, eds);
        let l = spec_last_row(blob_index as int, blob_size as int, eds);
        assert(selected@.map_values(|v: Vec<u8>| v@) =~= rows.subrange(f, l + 1));
        assert(square.leaf_views().subrange(f, l + 1) =~= rows.subrange(f, l + 1));
        assert(selected@.map_values(|v: Vec<u8>| v@).map_values(|s: Seq<u8>| tm_leaf_hash(s))
            =~= square.leaf_views().subrange(f, l + 1).map_values(|s: Seq<u8>| tm_leaf_hash(s)));
    }
    Ok((p, selected))
}

} // verus!

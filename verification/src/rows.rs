use vstd::prelude::*;

verus! {

/// A plane after the first `k` rows of `rows` were written into it: row `j`
/// of them, `row_bytes` long, lies at row `first + j` of the plane, whose
/// rows are `stride` bytes apart. No other byte of the plane changes.
pub open spec fn place_rows(
    plane: Seq<u8>,
    stride: int,
    row_bytes: int,
    first: int,
    rows: Seq<u8>,
    k: int,
) -> Seq<u8>
    decreases k,
{
    if k <= 0 {
        plane
    } else {
        let prev = place_rows(plane, stride, row_bytes, first, rows, k - 1);
        let at = (first + k - 1) * stride;
        prev.subrange(0, at) + rows.subrange((k - 1) * row_bytes, k * row_bytes) + prev.subrange(
            at + row_bytes,
            prev.len() as int,
        )
    }
}

/// Whether `k` rows of `row_bytes` bytes, placed from row `first` on, lie
/// within a plane of `len` bytes whose rows are `stride` bytes apart.
pub open spec fn rows_fit(len: int, stride: int, row_bytes: int, first: int, k: int) -> bool {
    &&& 0 <= row_bytes <= stride
    &&& 1 <= stride
    &&& 0 <= first
    &&& 0 <= k
    &&& (first + k) * stride <= len
}

/// Products with a common factor keep the order of the other factors.
pub proof fn lemma_mul_le(a: int, b: int, s: int)
    requires
        0 <= a <= b,
        0 <= s,
    ensures
        0 <= a * s <= b * s,
{
    assert(0 <= a * s <= b * s) by (nonlinear_arith)
        requires
            0 <= a <= b,
            0 <= s,
    ;
}

/// The product of a sum.
pub proof fn lemma_mul_succ(a: int, s: int)
    ensures
        (a + 1) * s == a * s + s,
{
    assert((a + 1) * s == a * s + s) by (nonlinear_arith);
}

/// Placing rows keeps the length of the plane.
pub proof fn lemma_place_rows_len(
    plane: Seq<u8>,
    stride: int,
    row_bytes: int,
    first: int,
    rows: Seq<u8>,
    k: int,
)
    requires
        rows_fit(plane.len() as int, stride, row_bytes, first, k),
        rows.len() >= k * row_bytes,
    ensures
        place_rows(plane, stride, row_bytes, first, rows, k).len() == plane.len(),
    decreases k,
{
    if k > 0 {
        lemma_mul_le(first + k - 1, first + k, stride);
        lemma_mul_succ(first + k - 1, stride);
        lemma_mul_succ(k - 1, row_bytes);
        lemma_mul_le(0, k - 1, row_bytes);
        lemma_place_rows_len(plane, stride, row_bytes, first, rows, k - 1);
    }
}

/// Whether byte `i` of a plane belongs to the pixels of row `r`.
pub open spec fn in_row(i: int, stride: int, row_bytes: int, r: int) -> bool {
    r * stride <= i < r * stride + row_bytes
}

/// A byte of a placed row comes from the row given for it: byte `c` of row
/// `first + j` of the plane is byte `c` of row `j` of `rows`.
pub proof fn law_placed_byte(
    plane: Seq<u8>,
    stride: int,
    row_bytes: int,
    first: int,
    rows: Seq<u8>,
    k: int,
    j: int,
    c: int,
)
    requires
        rows_fit(plane.len() as int, stride, row_bytes, first, k),
        rows.len() >= k * row_bytes,
        0 <= j < k,
        0 <= c < row_bytes,
    ensures
        0 <= (first + j) * stride + c < plane.len(),
        0 <= j * row_bytes + c < rows.len(),
        place_rows(plane, stride, row_bytes, first, rows, k)[(first + j) * stride + c] == rows[j
            * row_bytes + c],
    decreases k,
{
    let prev = place_rows(plane, stride, row_bytes, first, rows, k - 1);
    let placed = place_rows(plane, stride, row_bytes, first, rows, k);
    let at = (first + k - 1) * stride;
    let i = (first + j) * stride + c;
    lemma_mul_le(first + k - 1, first + k, stride);
    lemma_mul_succ(first + k - 1, stride);
    lemma_mul_succ(k - 1, row_bytes);
    lemma_mul_le(0, k - 1, row_bytes);
    lemma_mul_le(0, first + j, stride);
    lemma_mul_le(0, j, row_bytes);
    lemma_place_rows_len(plane, stride, row_bytes, first, rows, k - 1);
    assert(prev.len() == plane.len());
    if j == k - 1 {
        assert(i == at + c);
        assert(placed[i] == rows.subrange((k - 1) * row_bytes, k * row_bytes)[c]);
    } else {
        lemma_mul_le(first + j + 1, first + k - 1, stride);
        lemma_mul_succ(first + j, stride);
        lemma_mul_le(j + 1, k - 1, row_bytes);
        lemma_mul_succ(j, row_bytes);
        assert(i < at);
        assert(placed[i] == prev[i]);
        law_placed_byte(plane, stride, row_bytes, first, rows, k - 1, j, c);
    }
}

/// A byte that belongs to the pixels of none of the placed rows is the one
/// that the plane held before. So the bytes between the end of a row's
/// pixels and the start of the next row, and all rows outside those placed,
/// are never touched.
pub proof fn lemma_untouched_byte(
    plane: Seq<u8>,
    stride: int,
    row_bytes: int,
    first: int,
    rows: Seq<u8>,
    k: int,
    i: int,
)
    requires
        rows_fit(plane.len() as int, stride, row_bytes, first, k),
        rows.len() >= k * row_bytes,
        0 <= i < plane.len(),
        forall|r: int| first <= r < first + k ==> !#[trigger] in_row(i, stride, row_bytes, r),
    ensures
        place_rows(plane, stride, row_bytes, first, rows, k)[i] == plane[i],
    decreases k,
{
    if k > 0 {
        let prev = place_rows(plane, stride, row_bytes, first, rows, k - 1);
        let placed = place_rows(plane, stride, row_bytes, first, rows, k);
        let at = (first + k - 1) * stride;
        lemma_mul_le(first + k - 1, first + k, stride);
        lemma_mul_succ(first + k - 1, stride);
        lemma_mul_succ(k - 1, row_bytes);
        lemma_mul_le(0, k - 1, row_bytes);
        lemma_mul_le(0, first + k - 1, stride);
        lemma_place_rows_len(plane, stride, row_bytes, first, rows, k - 1);
        assert(prev.len() == plane.len());
        assert(!in_row(i, stride, row_bytes, first + k - 1));
        assert(placed[i] == prev[i]);
        lemma_untouched_byte(plane, stride, row_bytes, first, rows, k - 1, i);
    }
}

/// Writes `k` rows of `row_bytes` bytes from `rows` into a plane, from row
/// `first` on.
pub fn write_rows(
    plane: &mut [u8],
    stride: usize,
    row_bytes: usize,
    first: usize,
    rows: &[u8],
    k: usize,
)
    requires
        rows_fit(old(plane)@.len() as int, stride as int, row_bytes as int, first as int, k as int),
        rows@.len() == k * row_bytes,
    ensures
        final(plane)@ == place_rows(
            old(plane)@,
            stride as int,
            row_bytes as int,
            first as int,
            rows@,
            k as int,
        ),
        final(plane)@.len() == old(plane)@.len(),
{
    let n = plane.len();
    let m = rows.len();
    proof {
        lemma_mul_le(1, stride as int, first + k);
        assert((first + k) * stride == stride * (first + k)) by (nonlinear_arith);
    }
    let mut j: usize = 0;
    while j < k
        invariant
            j <= k,
            n == plane@.len(),
            m == rows@.len(),
            first + k <= n,
            rows_fit(old(plane)@.len() as int, stride as int, row_bytes as int, first as int, k as int),
            rows@.len() == k * row_bytes,
            plane@.len() == old(plane)@.len(),
            plane@ == place_rows(
                old(plane)@,
                stride as int,
                row_bytes as int,
                first as int,
                rows@,
                j as int,
            ),
        decreases k - j,
    {
        proof {
            lemma_mul_le(first + j, first + k - 1, stride as int);
            lemma_mul_succ(first + j, stride as int);
            lemma_mul_succ(first + k - 1, stride as int);
            lemma_mul_succ(j as int, row_bytes as int);
            lemma_mul_le(j as int + 1, k as int, row_bytes as int);
            lemma_mul_le(0, j as int, row_bytes as int);
        }
        let at = (first + j) * stride;
        let from = j * row_bytes;
        let ghost prev = plane@;
        let mut c: usize = 0;
        while c < row_bytes
            invariant
                c <= row_bytes,
                at + row_bytes <= plane@.len() == n,
                from + row_bytes <= rows@.len() == m,
                plane@.len() == prev.len(),
                plane@ == prev.subrange(0, at as int) + rows@.subrange(
                    from as int,
                    from + c as int,
                ) + prev.subrange(at + c as int, prev.len() as int),
            decreases row_bytes - c,
        {
            plane[at + c] = rows[from + c];
            proof {
                assert(plane@ =~= prev.subrange(0, at as int) + rows@.subrange(
                    from as int,
                    from + c as int + 1,
                ) + prev.subrange(at + c as int + 1, prev.len() as int));
            }
            c = c + 1;
        }
        j = j + 1;
    }
}

} // verus!

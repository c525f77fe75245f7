//! The source text as a sequence of characters together with the byte offset
//! of every character, so that spans can be reported in bytes.
use vstd::prelude::*;
use vstd::utf8::*;

verus! {

/// Number of bytes in the UTF-8 encoding of `c`.
pub open spec fn utf8_width(c: char) -> nat {
    encode_scalar(c as u32).len()
}

/// Byte length of the UTF-8 encoding of a character sequence.
pub open spec fn byte_len(s: Seq<char>) -> nat {
    encode_utf8(s).len()
}

proof fn lemma_encode_concat(a: Seq<char>, b: Seq<char>)
    ensures
        encode_utf8(a + b) == encode_utf8(a) + encode_utf8(b),
    decreases a.len(),
{
    if a.len() == 0 {
        assert(a + b =~= b);
        assert(encode_utf8(a) =~= Seq::<u8>::empty());
        assert(encode_utf8(a) + encode_utf8(b) =~= encode_utf8(b));
    } else {
        lemma_encode_concat(a.drop_first(), b);
        assert((a + b).drop_first() =~= a.drop_first() + b);
        assert((a + b)[0] == a[0]);
        assert(encode_utf8(a + b) =~= encode_scalar(a[0] as u32) + encode_utf8(a.drop_first() + b));
        assert(encode_utf8(a) + encode_utf8(b) =~= encode_scalar(a[0] as u32) + (encode_utf8(a.drop_first()) + encode_utf8(b)));
    }
}

/// Adding one character to a prefix adds that character's width.
pub proof fn lemma_byte_len_step(s: Seq<char>, k: int)
    requires
        0 <= k < s.len(),
    ensures
        byte_len(s.take(k + 1)) == byte_len(s.take(k)) + utf8_width(s[k]),
{
    assert(s.take(k + 1) =~= s.take(k) + seq![s[k]]);
    lemma_encode_concat(s.take(k), seq![s[k]]);
    let one = seq![s[k]];
    assert(one.drop_first() =~= Seq::<char>::empty());
    assert(encode_utf8(one.drop_first()) =~= Seq::<u8>::empty());
    assert(encode_utf8(one) =~= encode_scalar(s[k] as u32) + encode_utf8(one.drop_first()));
}

/// Width of a character in bytes, as computed from its scalar value.
pub fn char_width(c: char) -> (w: usize)
    ensures
        w as nat == utf8_width(c),
        1 <= w <= 4,
{
    proof {
        char_is_scalar(c);
    }
    let v = c as u32;
    if v <= 0x7F {
        1
    } else if v <= 0x7FF {
        2
    } else if v <= 0xFFFF {
        3
    } else {
        4
    }
}

/// The characters of the source and the byte offset where each one starts.
/// `offs` has one more entry than `chars`: the last entry is the total byte length.
pub struct Source {
    pub chars: Vec<char>,
    pub offs: Vec<usize>,
}

impl Source {
    /// The invariant: offsets are the running sums of character widths.
    pub open spec fn wf(&self) -> bool {
        &&& self.offs@.len() == self.chars@.len() + 1
        &&& forall|k: int| 0 <= k <= self.chars@.len() ==> #[trigger] self.offs@[k] as nat == byte_len(self.chars@.take(k))
        &&& forall|j: int, k: int| 0 <= j < k <= self.chars@.len() ==> #[trigger] self.offs@[j] < #[trigger] self.offs@[k]
    }

    pub open spec fn n(&self) -> int {
        self.chars@.len() as int
    }

    /// Byte offset of character index `i` (spec view).
    pub open spec fn spec_off(&self, i: int) -> int {
        self.offs@[i] as int
    }

    /// Builds the character/offset table for `s`.
    pub fn from_str(s: &str) -> (r: Source)
        requires
            byte_len(s@) <= usize::MAX,
        ensures
            r.wf(),
            r.chars@ == s@,
            r.offs@[r.chars@.len() as int] as nat == byte_len(s@),
    {
        let mut chars: Vec<char> = Vec::new();
        for c in it: s.chars()
            invariant
                it.seq() == s@,
                chars@ == it.seq().take(it.index() as int),
        {
            chars.push(c);
        }
        assert(chars@ =~= s@);
        let mut offs: Vec<usize> = Vec::new();
        offs.push(0);
        let mut total: usize = 0;
        let n = chars.len();
        assert(s@.take(0) =~= Seq::<char>::empty());
        assert(encode_utf8(Seq::<char>::empty()) =~= Seq::<u8>::empty());
        let mut k: usize = 0;
        while k < n
            invariant
                n == chars@.len(),
                chars@ == s@,
                k <= n,
                byte_len(s@) <= usize::MAX,
                offs@.len() == k + 1,
                total == offs@[k as int],
                forall|m: int| 0 <= m <= k ==> #[trigger] offs@[m] as nat == byte_len(s@.take(m)),
                forall|j: int, m: int| 0 <= j < m <= k ==> #[trigger] offs@[j] < #[trigger] offs@[m],
            decreases n - k,
        {
            proof {
                lemma_byte_len_step(s@, k as int);
                lemma_prefix_le(s@, k + 1);
            }
            let w = char_width(chars[k]);
            total = total + w;
            offs.push(total);
            k = k + 1;
        }
        Source { chars, offs }
    }

    /// Number of characters.
    pub fn len(&self) -> (r: usize)
        ensures
            r as int == self.n(),
    {
        self.chars.len()
    }

    /// Byte offset of the character at index `i` (or the total length at `i == n`).
    pub fn off(&self, i: usize) -> (r: usize)
        requires
            self.wf(),
            i <= self.n(),
        ensures
            r as int == self.spec_off(i as int),
    {
        self.offs[i]
    }

    /// Offsets grow strictly with the character index.
    pub proof fn lemma_off_mono(&self, j: int, k: int)
        requires
            self.wf(),
            0 <= j <= k <= self.n(),
        ensures
            self.spec_off(j) <= self.spec_off(k),
            j < k ==> self.spec_off(j) < self.spec_off(k),
    {
        if j < k {
            assert(self.offs@[j] < self.offs@[k]);
        }
    }

    /// Whether index `i` holds a `#`.
    pub open spec fn is_hash(&self, i: int) -> bool {
        0 <= i < self.n() && self.chars@[i] == '#'
    }

    /// Whether the character at index `i` exists and equals `c`.
    pub fn is_at(&self, i: usize, c: char) -> (r: bool)
        ensures
            r == (i < self.n() && self.chars@[i as int] == c),
    {
        i < self.chars.len() && self.chars[i] == c
    }
}

proof fn lemma_prefix_le(s: Seq<char>, k: int)
    requires
        0 <= k <= s.len(),
    ensures
        byte_len(s.take(k)) <= byte_len(s),
    decreases s.len() - k,
{
    if k < s.len() {
        lemma_byte_len_step(s, k);
        lemma_prefix_le(s, k + 1);
    } else {
        assert(s.take(k) =~= s);
    }
}

} // verus!

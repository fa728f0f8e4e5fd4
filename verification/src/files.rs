//! The files of a model directory: extensions and stems of file names, their
//! byte order, and which files the engines load.
use vstd::prelude::*;
use vstd::utf8::{valid_utf8, encode_utf8};

verus! {

broadcast use vstd::seq_lib::group_to_multiset_ensures;

// ---------------------------------------------------------------------------
// File names

/// The index of the last `.` among the first `end` bytes, or -1.
pub open spec fn last_dot_before(name: Seq<u8>, end: int) -> int
    decreases end,
{
    if end <= 0 || end > name.len() {
        -1
    } else if name[end - 1] == 0x2e {
        end - 1
    } else {
        last_dot_before(name, end - 1)
    }
}

/// The index of the last `.` of a file name, or -1.
pub open spec fn last_dot(name: Seq<u8>) -> int {
    last_dot_before(name, name.len() as int)
}

/// The name `..`.
pub open spec fn dot_dot() -> Seq<u8> {
    seq![0x2eu8, 0x2eu8]
}

/// A file name's extension: what follows its last `.`, where that dot is not
/// the first byte (a name like `.onnx` has none) and the name is not `..`.
pub open spec fn extension(name: Seq<u8>) -> Option<Seq<u8>> {
    if name == dot_dot() || last_dot(name) <= 0 {
        None
    } else {
        Some(name.skip(last_dot(name) + 1))
    }
}

/// A file name's stem: what precedes the last `.` where the name has an
/// extension, and else the whole name.
pub open spec fn stem(name: Seq<u8>) -> Seq<u8> {
    if name == dot_dot() || last_dot(name) <= 0 {
        name
    } else {
        name.take(last_dot(name))
    }
}

/// A name that has an extension is its stem, a dot and the extension.
pub proof fn lemma_stem_dot_extension(name: Seq<u8>)
    requires
        extension(name) is Some,
    ensures
        name == stem(name) + seq![0x2eu8] + extension(name)->0,
{
    lemma_last_dot(name);
    assert(name =~= stem(name) + seq![0x2eu8] + extension(name)->0);
}

/// The bytes `.onnx`.
pub open spec fn dot_onnx() -> Seq<u8> {
    seq![0x2eu8, 0x6fu8, 0x6eu8, 0x6eu8, 0x78u8]
}

/// The bytes `.json`.
pub open spec fn dot_json() -> Seq<u8> {
    seq![0x2eu8, 0x6au8, 0x73u8, 0x6fu8, 0x6eu8]
}

proof fn lemma_ends_with_ext(name: Seq<u8>, dotted: Seq<u8>)
    requires
        dotted.len() == 5,
        dotted[0] == 0x2e,
        forall|i: int| 1 <= i < 5 ==> dotted[i] != 0x2e,
    ensures
        has_ext(name, dotted.skip(1)) <==> (name.len() > 5 && name.skip(name.len() - 5) == dotted),
{
    lemma_last_dot(name);
    let n = name.len() as int;
    let d = last_dot(name);
    if has_ext(name, dotted.skip(1)) {
        assert(name.skip(d + 1) == dotted.skip(1));
        assert(d == n - 5);
        assert forall|j: int| 0 <= j < 5 implies #[trigger] name.skip(n - 5)[j] == dotted[j] by {
            if j > 0 {
                assert(name.skip(d + 1)[j - 1] == dotted.skip(1)[j - 1]);
            }
        }
        assert(name.skip(n - 5) =~= dotted);
    }
    if n > 5 && name.skip(n - 5) == dotted {
        assert(name[n - 5] == 0x2e);
        assert forall|j: int| n - 5 < j < n implies name[j] != 0x2e by {
            assert(name[j] == dotted[j - (n - 5)]);
        }
        if d > n - 5 {
            assert(name[d] == dotted[d - (n - 5)]);
        }
        if d < n - 5 {
            assert(name[n - 5] != 0x2e);
        }
        assert(d == n - 5);
        assert(name.skip(d + 1) =~= dotted.skip(1));
        assert(name != dot_dot());
    }
}

/// A model file is exactly a name that ends with `.onnx` after at least one
/// other byte (so `.onnx` alone is none, `a.onnx` and `a.b.onnx` are), and a
/// style file exactly a name that ends with `.json` after at least one other
/// byte.
pub proof fn lemma_model_and_style_file_names(name: Seq<u8>)
    ensures
        is_model_file(name) <==> (name.len() > 5 && name.skip(name.len() - 5) == dot_onnx()),
        is_style_file(name) <==> (name.len() > 5 && name.skip(name.len() - 5) == dot_json()),
{
    assert(dot_onnx().skip(1) =~= onnx_ext());
    assert(dot_json().skip(1) =~= json_ext());
    lemma_ends_with_ext(name, dot_onnx());
    lemma_ends_with_ext(name, dot_json());
}

/// An extension is what follows the last dot: it holds no dot, the name ends
/// with it after a dot, and the stem before that dot is not empty. A name
/// without a dot has no extension and is its own stem.
pub proof fn lemma_extension_shape(name: Seq<u8>)
    ensures
        extension(name) matches Some(e) ==> {
            &&& forall|i: int| 0 <= i < e.len() ==> e[i] != 0x2e
            &&& name.len() == stem(name).len() + 1 + e.len()
            &&& name[stem(name).len() as int] == 0x2e
            &&& stem(name).len() > 0
        },
        (forall|i: int| 0 <= i < name.len() ==> name[i] != 0x2e) ==> extension(name) is None && stem(name) == name,
{
    lemma_last_dot(name);
    if forall|i: int| 0 <= i < name.len() ==> name[i] != 0x2e {
        assert(last_dot(name) == -1);
    }
}

/// Whether a file name has exactly the extension `ext`.
pub open spec fn has_ext(name: Seq<u8>, ext: Seq<u8>) -> bool {
    extension(name) == Some(ext)
}

/// The extension of sherpa model files: `onnx`.
pub open spec fn onnx_ext() -> Seq<u8> {
    seq![0x6fu8, 0x6eu8, 0x6eu8, 0x78u8]
}

/// The extension of voice style files: `json`.
pub open spec fn json_ext() -> Seq<u8> {
    seq![0x6au8, 0x73u8, 0x6fu8, 0x6eu8]
}

proof fn lemma_last_dot_before(name: Seq<u8>, end: int)
    requires
        0 <= end <= name.len(),
    ensures
        -1 <= last_dot_before(name, end) < end,
        last_dot_before(name, end) >= 0 ==> name[last_dot_before(name, end)] == 0x2e,
        forall|j: int| last_dot_before(name, end) < j < end ==> name[j] != 0x2e,
    decreases end,
{
    if end > 0 && name[end - 1] != 0x2e {
        lemma_last_dot_before(name, end - 1);
    }
}

fn bytes_eq(a: &[u8], b: &[u8]) -> (r: bool)
    ensures
        r == (a@ == b@),
{
    if a.len() != b.len() {
        return false;
    }
    let n = a.len();
    for i in 0..n
        invariant
            n == a@.len(),
            n == b@.len(),
            forall|j: int| 0 <= j < i ==> a@[j] == b@[j],
    {
        if a[i] != b[i] {
            return false;
        }
    }
    assert(a@ =~= b@);
    true
}

fn find_last_dot(name: &[u8]) -> (r: Option<usize>)
    ensures
        match r {
            Some(i) => last_dot(name@) == i as int,
            None => last_dot(name@) == -1,
        },
{
    let mut end = name.len();
    while end > 0
        invariant
            end <= name@.len(),
            last_dot(name@) == last_dot_before(name@, end as int),
        decreases end,
    {
        if name[end - 1] == 0x2e {
            return Some(end - 1);
        }
        end = end - 1;
    }
    None
}

proof fn lemma_last_dot(name: Seq<u8>)
    ensures
        -1 <= last_dot(name) < name.len(),
        last_dot(name) >= 0 ==> name[last_dot(name)] == 0x2e,
        forall|j: int| last_dot(name) < j < name.len() ==> name[j] != 0x2e,
{
    lemma_last_dot_before(name, name.len() as int);
}

fn is_dot_dot(name: &[u8]) -> (r: bool)
    ensures
        r == (name@ == dot_dot()),
{
    let r = name.len() == 2 && name[0] == 0x2e && name[1] == 0x2e;
    if r {
        assert(name@ =~= dot_dot());
    }
    r
}

/// Whether the file name `name` has the extension `ext`.
pub fn has_extension(name: &[u8], ext: &[u8]) -> (r: bool)
    ensures
        r == has_ext(name@, ext@),
{
    if is_dot_dot(name) {
        return false;
    }
    proof {
        lemma_last_dot(name@);
    }
    match find_last_dot(name) {
        Some(d) => {
            if d == 0 {
                false
            } else {
                let mut tail: Vec<u8> = Vec::new();
                let n = name.len();
                for k in d + 1..n
                    invariant
                        n == name@.len(),
                        d < n,
                        tail@ == name@.subrange(d + 1, k as int),
                {
                    tail.push(name[k]);
                    assert(tail@ =~= name@.subrange(d + 1, k + 1));
                }
                assert(name@.skip(d + 1) =~= name@.subrange(d + 1, n as int));
                bytes_eq(tail.as_slice(), ext)
            }
        },
        None => false,
    }
}

/// The stem of the file name `name`.
pub fn file_stem(name: &[u8]) -> (r: Vec<u8>)
    ensures
        r@ == stem(name@),
{
    proof {
        lemma_last_dot(name@);
    }
    let cut = if is_dot_dot(name) {
        name.len()
    } else {
        match find_last_dot(name) {
            Some(d) => if d == 0 { name.len() } else { d },
            None => name.len(),
        }
    };
    let mut out: Vec<u8> = Vec::new();
    for k in 0..cut
        invariant
            cut <= name@.len(),
            out@ == name@.take(k as int),
    {
        out.push(name[k]);
        assert(out@ =~= name@.take(k + 1));
    }
    assert(name@.take(name@.len() as int) =~= name@);
    out
}


// ---------------------------------------------------------------------------
// Byte order of names

/// Lexicographic order of byte strings, a proper prefix first: the order of
/// paths that differ only in their last component.
pub open spec fn lex_le(a: Seq<u8>, b: Seq<u8>) -> bool
    decreases a.len(),
{
    if a.len() == 0 {
        true
    } else if b.len() == 0 {
        false
    } else if a[0] != b[0] {
        a[0] < b[0]
    } else {
        lex_le(a.drop_first(), b.drop_first())
    }
}

/// Byte order compares names byte by byte as unsigned numbers: the empty
/// name comes first, a non-empty name never precedes the empty one, the
/// first differing byte decides by its unsigned value, and an equal first
/// byte defers to the rest.
pub proof fn lemma_lex_le_bytewise(x: u8, y: u8, s: Seq<u8>, t: Seq<u8>)
    ensures
        lex_le(Seq::<u8>::empty(), t),
        !lex_le(seq![x] + s, Seq::<u8>::empty()),
        x != y ==> (lex_le(seq![x] + s, seq![y] + t) <==> (x as int) < (y as int)),
        lex_le(seq![x] + s, seq![x] + t) == lex_le(s, t),
{
    assert((seq![x] + s).drop_first() =~= s);
    assert((seq![x] + t).drop_first() =~= t);
    assert((seq![x] + s)[0] == x);
    assert((seq![y] + t)[0] == y);
}

/// The order is total.
pub proof fn lemma_lex_total(a: Seq<u8>, b: Seq<u8>)
    ensures
        lex_le(a, b) || lex_le(b, a),
    decreases a.len(),
{
    if a.len() > 0 && b.len() > 0 && a[0] == b[0] {
        lemma_lex_total(a.drop_first(), b.drop_first());
    }
}

/// The order is transitive.
pub proof fn lemma_lex_trans(a: Seq<u8>, b: Seq<u8>, c: Seq<u8>)
    requires
        lex_le(a, b),
        lex_le(b, c),
    ensures
        lex_le(a, c),
    decreases a.len(),
{
    if a.len() > 0 && b.len() > 0 && c.len() > 0 && a[0] == b[0] && b[0] == c[0] {
        lemma_lex_trans(a.drop_first(), b.drop_first(), c.drop_first());
    }
}

/// The order is antisymmetric: names that precede each other are equal.
pub proof fn lemma_lex_antisym(a: Seq<u8>, b: Seq<u8>)
    requires
        lex_le(a, b),
        lex_le(b, a),
    ensures
        a == b,
    decreases a.len(),
{
    if a.len() > 0 && b.len() > 0 {
        lemma_lex_antisym(a.drop_first(), b.drop_first());
        assert(a =~= seq![a[0]] + a.drop_first());
        assert(b =~= seq![b[0]] + b.drop_first());
    } else {
        assert(a =~= b);
    }
}

/// Byte order is a total order on names.
pub proof fn lemma_lex_total_ordering()
    ensures
        vstd::relations::total_ordering(|a: Seq<u8>, b: Seq<u8>| lex_le(a, b)),
{
    let leq = |a: Seq<u8>, b: Seq<u8>| lex_le(a, b);
    assert forall|x: Seq<u8>| #[trigger] leq(x, x) by {
        lemma_lex_total(x, x);
    }
    assert forall|x: Seq<u8>, y: Seq<u8>| #[trigger] leq(x, y) && #[trigger] leq(y, x) implies x == y by {
        lemma_lex_antisym(x, y);
    }
    assert forall|x: Seq<u8>, y: Seq<u8>, z: Seq<u8>| #[trigger] leq(x, y) && #[trigger] leq(y, z) implies leq(x, z) by {
        lemma_lex_trans(x, y, z);
    }
    assert forall|x: Seq<u8>, y: Seq<u8>| #[trigger] leq(x, y) || #[trigger] leq(y, x) by {
        lemma_lex_total(x, y);
    }
}

/// Two lists of names that are sorted and hold the same names are the same
/// list: the order in which names are sorted depends only on which names
/// there are, not on the order in which the directory lists them.
pub proof fn lemma_sorted_names_unique(x: Seq<Seq<u8>>, y: Seq<Seq<u8>>)
    requires
        sorted_names(x),
        sorted_names(y),
        x.to_multiset() == y.to_multiset(),
    ensures
        x == y,
{
    let leq = |a: Seq<u8>, b: Seq<u8>| lex_le(a, b);
    lemma_lex_total_ordering();
    assert(vstd::relations::sorted_by(x, leq));
    assert(vstd::relations::sorted_by(y, leq));
    vstd::seq_lib::lemma_sorted_unique(x, y, leq);
}

/// Whether `a` precedes or equals `b` in byte order.
pub fn lex_le_bytes(a: &[u8], b: &[u8]) -> (r: bool)
    ensures
        r == lex_le(a@, b@),
{
    let mut i: usize = 0;
    assert(a@.skip(0) =~= a@);
    assert(b@.skip(0) =~= b@);
    while i < a.len() && i < b.len()
        invariant
            i <= a@.len(),
            i <= b@.len(),
            lex_le(a@, b@) == lex_le(a@.skip(i as int), b@.skip(i as int)),
        decreases a@.len() - i,
    {
        if a[i] != b[i] {
            return a[i] < b[i];
        }
        assert(a@.skip(i as int).drop_first() =~= a@.skip(i + 1));
        assert(b@.skip(i as int).drop_first() =~= b@.skip(i + 1));
        i = i + 1;
    }
    i == a.len()
}

/// The byte strings of a list of names.
pub open spec fn names_view(v: Seq<Vec<u8>>) -> Seq<Seq<u8>> {
    v.map_values(|x: Vec<u8>| x@)
}

/// Each name precedes or equals every later one.
pub open spec fn sorted_names(s: Seq<Seq<u8>>) -> bool {
    forall|i: int, j: int| 0 <= i < j < s.len() ==> lex_le(#[trigger] s[i], #[trigger] s[j])
}

fn insert_sorted(r: &mut Vec<Vec<u8>>, x: Vec<u8>)
    requires
        sorted_names(names_view(old(r)@)),
    ensures
        sorted_names(names_view(final(r)@)),
        names_view(final(r)@).to_multiset() == names_view(old(r)@).to_multiset().insert(x@),
{
    let ghost s = names_view(r@);
    let mut p: usize = 0;
    while p < r.len() && lex_le_bytes(r[p].as_slice(), x.as_slice())
        invariant
            p <= r@.len(),
            s == names_view(r@),
            forall|j: int| 0 <= j < p ==> lex_le(#[trigger] s[j], x@),
        decreases r@.len() - p,
    {
        p = p + 1;
    }
    let ghost xv = x@;
    proof {
        if p < s.len() {
            lemma_lex_total(s[p as int], xv);
        }
    }
    r.insert(p, x);
    let ghost t = names_view(r@);
    assert(t =~= s.insert(p as int, xv));
    proof {
        vstd::seq_lib::to_multiset_insert(s, p as int, xv);
        assert forall|i: int, j: int| 0 <= i < j < t.len() implies lex_le(#[trigger] t[i], #[trigger] t[j]) by {
            if j == p {
                assert(t[i] == s[i]);
            } else if i == p {
                assert(t[j] == s[j - 1]);
                if j - 1 > p {
                    assert(lex_le(s[p as int], s[j - 1]));
                    lemma_lex_trans(xv, s[p as int], s[j - 1]);
                }
            } else if j < p {
                assert(t[i] == s[i] && t[j] == s[j]);
            } else if i < p {
                assert(t[i] == s[i] && t[j] == s[j - 1]);
            } else {
                assert(t[i] == s[i - 1] && t[j] == s[j - 1]);
            }
        }
    }
}

/// Sorts names in byte order. The result is sorted and holds the same names
/// as many times each; since the order is total and antisymmetric, exactly
/// one list is both.
pub fn sort_names(names: Vec<Vec<u8>>) -> (r: Vec<Vec<u8>>)
    ensures
        sorted_names(names_view(r@)),
        names_view(r@).to_multiset() == names_view(names@).to_multiset(),
{
    let ghost all = names_view(names@);
    let mut rest = names;
    let mut r: Vec<Vec<u8>> = Vec::new();
    assert(names_view(r@) =~= Seq::<Seq<u8>>::empty());
    while rest.len() > 0
        invariant
            sorted_names(names_view(r@)),
            names_view(r@).to_multiset().add(names_view(rest@).to_multiset()) == all.to_multiset(),
        decreases rest@.len(),
    {
        let ghost before = names_view(rest@);
        let x = rest.pop().unwrap();
        proof {
            assert(before =~= names_view(rest@).push(x@));
            vstd::seq_lib::to_multiset_build(names_view(rest@), x@);
        }
        insert_sorted(&mut r, x);
        assert(names_view(r@).to_multiset().add(names_view(rest@).to_multiset()) =~= all.to_multiset());
    }
    assert(names_view(rest@) =~= Seq::<Seq<u8>>::empty());
    assert(names_view(r@).to_multiset().add(names_view(rest@).to_multiset()) =~= names_view(r@).to_multiset());
    r
}


// ---------------------------------------------------------------------------
// What the engines load

/// A sherpa model file: a name with the extension `onnx`.
pub open spec fn is_model_file(name: Seq<u8>) -> bool {
    has_ext(name, onnx_ext())
}

/// A voice style file: a name with the extension `json`.
pub open spec fn is_style_file(name: Seq<u8>) -> bool {
    has_ext(name, json_ext())
}

fn onnx_bytes() -> (r: Vec<u8>)
    ensures
        r@ == onnx_ext(),
{
    let r = vec![0x6fu8, 0x6eu8, 0x6eu8, 0x78u8];
    assert(r@ =~= onnx_ext());
    r
}

fn json_bytes() -> (r: Vec<u8>)
    ensures
        r@ == json_ext(),
{
    let r = vec![0x6au8, 0x73u8, 0x6fu8, 0x6eu8];
    assert(r@ =~= json_ext());
    r
}

/// The model that a sherpa engine loads from a directory holding the files
/// `names`: the first `.onnx` file in byte order of the names, and none where
/// the directory holds no `.onnx` file.
pub fn pick_model_file(names: &Vec<Vec<u8>>) -> (r: Option<Vec<u8>>)
    ensures
        r is None <==> (forall|i: int| 0 <= i < names@.len() ==> !is_model_file(#[trigger] names@[i]@)),
        r matches Some(m) ==> {
            &&& is_model_file(m@)
            &&& exists|i: int| 0 <= i < names@.len() && #[trigger] names@[i]@ == m@
            &&& forall|i: int| 0 <= i < names@.len() && is_model_file(#[trigger] names@[i]@) ==> lex_le(m@, names@[i]@)
        },
{
    let ext = onnx_bytes();
    let mut best: Option<usize> = None;
    let n = names.len();
    for i in 0..n
        invariant
            n == names@.len(),
            ext@ == onnx_ext(),
            best is None <==> (forall|j: int| 0 <= j < i ==> !is_model_file(#[trigger] names@[j]@)),
            best matches Some(b) ==> {
                &&& b < i
                &&& is_model_file(names@[b as int]@)
                &&& forall|j: int| 0 <= j < i && is_model_file(#[trigger] names@[j]@) ==> lex_le(names@[b as int]@, names@[j]@)
            },
    {
        if has_extension(names[i].as_slice(), ext.as_slice()) {
            match best {
                None => {
                    best = Some(i);
                },
                Some(b) => {
                    if !lex_le_bytes(names[b].as_slice(), names[i].as_slice()) {
                        proof {
                            lemma_lex_total(names@[b as int]@, names@[i as int]@);
                            assert forall|j: int| 0 <= j < i + 1 && is_model_file(#[trigger] names@[j]@) implies lex_le(names@[i as int]@, names@[j]@) by {
                                if j < i {
                                    lemma_lex_trans(names@[i as int]@, names@[b as int]@, names@[j]@);
                                } else {
                                    lemma_lex_total(names@[j]@, names@[j]@);
                                }
                            }
                        }
                        best = Some(i);
                    }
                },
            }
        }
        proof {
            if best == Some(i) {
                lemma_lex_total(names@[i as int]@, names@[i as int]@);
            }
        }
    }
    match best {
        Some(b) => Some(names[b].clone()),
        None => None,
    }
}

/// The voice style files of a `voice_styles` directory holding the files
/// `names`: its `.json` files, in byte order of their names.
pub fn select_style_files(names: &Vec<Vec<u8>>) -> (r: Vec<Vec<u8>>)
    ensures
        sorted_names(names_view(r@)),
        names_view(r@).to_multiset() == names_view(names@).filter(|s: Seq<u8>| is_style_file(s)).to_multiset(),
{
    let ext = json_bytes();
    let ghost all = names_view(names@);
    let ghost pred = |s: Seq<u8>| is_style_file(s);
    let mut picked: Vec<Vec<u8>> = Vec::new();
    let n = names.len();
    assert(names_view(picked@) =~= all.take(0).filter(pred));
    for i in 0..n
        invariant
            n == names@.len(),
            all == names_view(names@),
            ext@ == json_ext(),
            pred == (|s: Seq<u8>| is_style_file(s)),
            names_view(picked@) == all.take(i as int).filter(pred),
    {
        proof {
            assert(all.take(i + 1) =~= all.take(i as int).push(all[i as int]));
            all.take(i as int).lemma_filter_push(all[i as int], pred);
            assert(all[i as int] == names@[i as int]@);
            assert(pred(all[i as int]) == is_style_file(names@[i as int]@));
        }
        let ghost before = picked@;
        if has_extension(names[i].as_slice(), ext.as_slice()) {
            let x = names[i].clone();
            assert(x@ == names@[i as int]@);
            picked.push(x);
            assert(names_view(picked@) =~= names_view(before).push(x@));
            assert(names_view(picked@) =~= all.take(i + 1).filter(pred));
        } else {
            assert(names_view(picked@) =~= all.take(i + 1).filter(pred));
        }
    }
    assert(all.take(n as int) =~= all);
    sort_names(picked)
}

/// The text of UTF-8 bytes, where they are valid UTF-8.
#[verifier::external_body]
fn utf8_text(bytes: &[u8]) -> (r: Option<String>)
    ensures
        r is Some <==> valid_utf8(bytes@),
        r matches Some(s) ==> encode_utf8(s@) == bytes@,
{
    match std::str::from_utf8(bytes) {
        Ok(s) => Some(s.to_string()),
        Err(_) => None,
    }
}

/// The name of a voice style: the stem of its file name where that is valid
/// UTF-8, and `style` otherwise.
pub open spec fn style_name_of(file_name: Seq<u8>) -> Seq<char> {
    if valid_utf8(stem(file_name)) {
        vstd::utf8::decode_utf8(stem(file_name))
    } else {
        "style"@
    }
}

/// A style is offered under its stem where the stem is text: the name's
/// UTF-8 encoding is then the stem's bytes; a stem that is no UTF-8 gives
/// the name `style`.
pub proof fn lemma_style_name_is_stem(file_name: Seq<u8>)
    ensures
        valid_utf8(stem(file_name)) ==> encode_utf8(style_name_of(file_name)) == stem(file_name),
        !valid_utf8(stem(file_name)) ==> style_name_of(file_name) == "style"@,
{
    if valid_utf8(stem(file_name)) {
        vstd::utf8::decode_utf8_encode_utf8(stem(file_name));
    }
}

/// The name under which a voice style file is offered.
pub fn style_name(file_name: &[u8]) -> (r: String)
    ensures
        r@ == style_name_of(file_name@),
{
    let st = file_stem(file_name);
    match utf8_text(st.as_slice()) {
        Some(s) => {
            proof {
                vstd::utf8::encode_utf8_decode_utf8(s@);
            }
            s
        },
        None => String::from_str("style"),
    }
}

/// The names under which voice style files are offered, one per file, in
/// the order of the files.
pub fn style_names(files: &Vec<Vec<u8>>) -> (r: Vec<String>)
    ensures
        r@.map_values(|s: String| s@) == files@.map_values(|f: Vec<u8>| style_name_of(f@)),
{
    let mut out: Vec<String> = Vec::new();
    let n = files.len();
    for i in 0..n
        invariant
            n == files@.len(),
            out@.len() == i,
            forall|j: int| 0 <= j < i ==> #[trigger] out@[j]@ == style_name_of(files@[j]@),
    {
        out.push(style_name(files[i].as_slice()));
    }
    assert(out@.map_values(|s: String| s@) =~= files@.map_values(|f: Vec<u8>| style_name_of(f@)));
    out
}

/// A model-directory file that the engine may use: its path where the file
/// exists, and the empty string (no such file) where it does not.
pub fn opt_path(path: String, exists: bool) -> (r: String)
    ensures
        r@ == (if exists { path@ } else { Seq::<char>::empty() }),
{
    if exists {
        path
    } else {
        String::new()
    }
}

} // verus!

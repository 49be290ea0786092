//! Coordinates, vectors and transforms.
//!
//! A coordinate is held as the decimal text that the scene files store, so that
//! what is written is what is read back. The arithmetic on coordinates (ray
//! casting, nudging, snapping to the grid) happens around the library, on
//! values converted from and to this text.

use vstd::prelude::*;
use crate::text::{all_digits, is_digit};

verus! {

/// The text after an optional leading sign.
pub open spec fn unsigned_part(s: Seq<char>) -> Seq<char> {
    if s.len() > 0 && (s[0] == '+' || s[0] == '-') {
        s.drop_first()
    } else {
        s
    }
}

/// Digits with at most one `.`, and at least one digit: what a number holds
/// before its exponent.
pub open spec fn is_mantissa(u: Seq<char>) -> bool {
    (u.len() > 0 && all_digits(u)) || (u.len() > 1 && exists|d: int|
        0 <= d < u.len() && #[trigger] u[d] == '.' && all_digits(u.subrange(0, d))
            && all_digits(u.subrange(d + 1, u.len() as int)))
}

pub open spec fn is_exp_mark(c: char) -> bool {
    c == 'e' || c == 'E'
}

/// `e` or `E`, an optional sign, then one or more digits.
pub open spec fn is_exponent(e: Seq<char>) -> bool {
    e.len() > 0 && is_exp_mark(e[0]) && unsigned_part(e.drop_first()).len() > 0 && all_digits(
        unsigned_part(e.drop_first()),
    )
}

/// A mantissa, then an optional exponent.
pub open spec fn is_decimal(u: Seq<char>) -> bool {
    is_mantissa(u) || exists|k: int|
        0 <= k < u.len() && is_exp_mark(#[trigger] u[k]) && is_mantissa(u.subrange(0, k))
            && is_exponent(u.subrange(k, u.len() as int))
}

/// The capital of each letter of the special words.
pub open spec fn upper(c: char) -> char {
    if c == 'i' { 'I' }
    else if c == 'n' { 'N' }
    else if c == 'f' { 'F' }
    else if c == 't' { 'T' }
    else if c == 'y' { 'Y' }
    else if c == 'a' { 'A' }
    else { c }
}

/// `u` spells the lower-case word `w`, each letter in either case.
pub open spec fn same_letters(u: Seq<char>, w: Seq<char>) -> bool {
    u.len() == w.len() && forall|i: int| 0 <= i < u.len() ==> (#[trigger] u[i] == w[i] || u[i] == upper(w[i]))
}

pub open spec fn inf_text() -> Seq<char> {
    seq!['i', 'n', 'f']
}

pub open spec fn infinity_text() -> Seq<char> {
    seq!['i', 'n', 'f', 'i', 'n', 'i', 't', 'y']
}

pub open spec fn nan_text() -> Seq<char> {
    seq!['n', 'a', 'n']
}

/// The coordinate texts that the scene files accept, those that `f32` reads
/// from text: an optional sign, then a decimal with an optional exponent, or
/// `inf`, `infinity` or `nan` in any case.
pub open spec fn is_scalar_text(s: Seq<char>) -> bool {
    let u = unsigned_part(s);
    is_decimal(u) || same_letters(u, inf_text()) || same_letters(u, infinity_text()) || same_letters(
        u,
        nan_text(),
    )
}

/// What a vector is to contracts: the text of each coordinate.
pub type Vec3View = (Seq<char>, Seq<char>, Seq<char>);

/// What a transform is to contracts: position, rotation and size.
pub type TransformView = (Vec3View, Vec3View, Vec3View);

pub open spec fn vec3_valid(v: Vec3View) -> bool {
    is_scalar_text(v.0) && is_scalar_text(v.1) && is_scalar_text(v.2)
}

pub open spec fn transform_valid(t: TransformView) -> bool {
    vec3_valid(t.0) && vec3_valid(t.1) && vec3_valid(t.2)
}

pub open spec fn zero_vec3() -> Vec3View {
    (seq!['0'], seq!['0'], seq!['0'])
}

pub open spec fn one_vec3() -> Vec3View {
    (seq!['1'], seq!['1'], seq!['1'])
}

/// At the origin, not turned, of size one on each axis.
pub open spec fn identity_transform() -> TransformView {
    (zero_vec3(), zero_vec3(), one_vec3())
}

/// One coordinate, as decimal text.
pub struct Scalar {
    text: String,
}

impl View for Scalar {
    type V = Seq<char>;

    closed spec fn view(&self) -> Seq<char> {
        self.text@
    }
}

pub(crate) fn same_chars(s: &str, t: &str) -> (r: bool)
    ensures
        r == (s@ == t@),
{
    let n = s.unicode_len();
    if n != t.unicode_len() {
        return false;
    }
    let mut i: usize = 0;
    while i < n
        invariant
            n == s@.len(),
            n == t@.len(),
            i <= n,
            forall|j: int| 0 <= j < i ==> s@[j] == t@[j],
        decreases n - i,
    {
        if s.get_char(i) != t.get_char(i) {
            return false;
        }
        i += 1;
    }
    assert(s@ =~= t@);
    true
}

fn check_mantissa(u: &str) -> (r: bool)
    ensures
        r == is_mantissa(u@),
{
    let n = u.unicode_len();
    let mut dot: Option<usize> = None;
    let mut i: usize = 0;
    while i < n
        invariant
            n == u@.len(),
            i <= n,
            match dot {
                None => all_digits(u@.subrange(0, i as int)),
                Some(d) => d < i && u@[d as int] == '.' && all_digits(u@.subrange(0, d as int))
                    && all_digits(u@.subrange(d + 1, i as int)),
            },
        decreases n - i,
    {
        let c = u.get_char(i);
        if '0' <= c && c <= '9' {
        } else if c == '.' && dot.is_none() {
            dot = Some(i);
        } else {
            proof {
                let s = u@;
                assert(!all_digits(s)) by {
                    assert(!is_digit(s[i as int]));
                }
                assert forall|d: int|
                    0 <= d < s.len() && #[trigger] s[d] == '.' && all_digits(s.subrange(0, d))
                        implies !all_digits(s.subrange(d + 1, s.len() as int)) by {
                    if d < i {
                        assert(s.subrange(d + 1, s.len() as int)[i - d - 1] == s[i as int]);
                    } else if d > i {
                        assert(s.subrange(0, d)[i as int] == s[i as int]);
                    }
                    match dot {
                        None => {},
                        Some(d0) => {
                            if d != d0 {
                                if d0 < d {
                                    assert(s.subrange(0, d)[d0 as int] == s[d0 as int]);
                                } else {
                                    assert(s.subrange(d + 1, s.len() as int)[d0 - d - 1]
                                        == s[d0 as int]);
                                }
                            }
                        },
                    }
                }
            }
            return false;
        }
        proof {
            let s = u@;
            match dot {
                None => {
                    assert(s.subrange(0, i + 1) =~= s.subrange(0, i as int).push(c));
                },
                Some(d) => {
                    if d < i {
                        assert(s.subrange(d + 1, i + 1) =~= s.subrange(d + 1, i as int).push(c));
                    } else {
                        assert(s.subrange(d + 1, i + 1) =~= Seq::<char>::empty());
                    }
                },
            }
        }
        i += 1;
    }
    let s = Ghost(u@);
    assert(s@.subrange(0, n as int) =~= s@);
    match dot {
        None => n > 0,
        Some(d) => {
            if n > 1 {
                true
            } else {
                proof {
                    assert(!is_digit(s@[d as int]));
                    assert(!all_digits(s@));
                }
                false
            }
        },
    }
}

fn check_digits(u: &str) -> (r: bool)
    ensures
        r == (u@.len() > 0 && all_digits(u@)),
{
    let n = u.unicode_len();
    let mut i: usize = 0;
    while i < n
        invariant
            n == u@.len(),
            i <= n,
            forall|j: int| 0 <= j < i ==> is_digit(#[trigger] u@[j]),
        decreases n - i,
    {
        let c = u.get_char(i);
        if !('0' <= c && c <= '9') {
            return false;
        }
        i += 1;
    }
    n > 0
}

fn unsigned(s: &str) -> (u: &str)
    ensures
        u@ == unsigned_part(s@),
{
    let n = s.unicode_len();
    let u: &str = if n > 0 && (s.get_char(0) == '+' || s.get_char(0) == '-') {
        s.substring_char(1, n)
    } else {
        s
    };
    assert(u@ =~= unsigned_part(s@));
    u
}

fn check_exponent(e: &str) -> (r: bool)
    ensures
        r == is_exponent(e@),
{
    let n = e.unicode_len();
    if n == 0 {
        return false;
    }
    let c = e.get_char(0);
    if !(c == 'e' || c == 'E') {
        return false;
    }
    let rest = e.substring_char(1, n);
    assert(rest@ =~= e@.drop_first());
    check_digits(unsigned(rest))
}

proof fn lemma_mantissa_has_no_mark(m: Seq<char>)
    requires
        is_mantissa(m),
    ensures
        forall|i: int| 0 <= i < m.len() ==> !is_exp_mark(#[trigger] m[i]),
{
    if !(m.len() > 0 && all_digits(m)) {
        let d = choose|d: int|
            0 <= d < m.len() && #[trigger] m[d] == '.' && all_digits(m.subrange(0, d))
                && all_digits(m.subrange(d + 1, m.len() as int));
        assert forall|i: int| 0 <= i < m.len() implies !is_exp_mark(#[trigger] m[i]) by {
            if i < d {
                assert(m.subrange(0, d)[i] == m[i]);
            } else if i > d {
                assert(m.subrange(d + 1, m.len() as int)[i - d - 1] == m[i]);
            }
        }
    }
}

fn check_decimal(u: &str) -> (r: bool)
    ensures
        r == is_decimal(u@),
{
    let n = u.unicode_len();
    let mut k: usize = 0;
    while k < n
        invariant
            n == u@.len(),
            k <= n,
            forall|j: int| 0 <= j < k ==> !is_exp_mark(#[trigger] u@[j]),
        ensures
            forall|j: int| 0 <= j < k ==> !is_exp_mark(#[trigger] u@[j]),
            k < n ==> is_exp_mark(u@[k as int]),
        decreases n - k,
    {
        let c = u.get_char(k);
        if c == 'e' || c == 'E' {
            break;
        }
        k += 1;
    }
    let s = Ghost(u@);
    proof {
        assert forall|k2: int|
            0 <= k2 < s@.len() && is_exp_mark(#[trigger] s@[k2]) && is_mantissa(s@.subrange(0, k2)) implies k2
            == k by {
            lemma_mantissa_has_no_mark(s@.subrange(0, k2));
            if (k as int) < k2 {
                assert(s@.subrange(0, k2)[k as int] == s@[k as int]);
            }
        }
    }
    if k == n {
        check_mantissa(u)
    } else {
        let m = u.substring_char(0, k);
        let e = u.substring_char(k, n);
        proof {
            if is_mantissa(s@) {
                lemma_mantissa_has_no_mark(s@);
            }
        }
        check_mantissa(m) && check_exponent(e)
    }
}

fn same_letters_exec(u: &str, w: &str) -> (r: bool)
    ensures
        r == same_letters(u@, w@),
{
    let n = u.unicode_len();
    if n != w.unicode_len() {
        return false;
    }
    let mut i: usize = 0;
    while i < n
        invariant
            n == u@.len(),
            n == w@.len(),
            i <= n,
            forall|j: int| 0 <= j < i ==> (#[trigger] u@[j] == w@[j] || u@[j] == upper(w@[j])),
        decreases n - i,
    {
        let c = u.get_char(i);
        let l = w.get_char(i);
        let cap = if l == 'i' {
            'I'
        } else if l == 'n' {
            'N'
        } else if l == 'f' {
            'F'
        } else if l == 't' {
            'T'
        } else if l == 'y' {
            'Y'
        } else if l == 'a' {
            'A'
        } else {
            l
        };
        if c != l && c != cap {
            return false;
        }
        i += 1;
    }
    true
}

/// Whether `s` is a coordinate text that the scene files accept.
pub fn is_scalar(s: &str) -> (r: bool)
    ensures
        r == is_scalar_text(s@),
{
    let u = unsigned(s);
    if check_decimal(u) {
        return true;
    }
    let inf = same_letters_exec(u, "inf");
    let infinity = same_letters_exec(u, "infinity");
    let nan = same_letters_exec(u, "nan");
    proof {
        reveal_strlit("inf");
        reveal_strlit("infinity");
        reveal_strlit("nan");
        assert("inf"@ =~= inf_text());
        assert("infinity"@ =~= infinity_text());
        assert("nan"@ =~= nan_text());
    }
    inf || infinity || nan
}

impl Scalar {
    pub open spec fn wf(&self) -> bool {
        is_scalar_text(self@)
    }

    /// The coordinate that `s` spells, if it is one.
    pub fn from_text(s: &str) -> (r: Option<Scalar>)
        ensures
            r.is_some() == is_scalar_text(s@),
            r matches Some(v) ==> v@ == s@ && v.wf(),
    {
        if is_scalar(s) {
            Some(Scalar { text: String::from_str(s) })
        } else {
            None
        }
    }

    pub fn zero() -> (r: Scalar)
        ensures
            r@ == seq!['0'],
            r.wf(),
    {
        let text = String::from_str("0");
        proof {
            reveal_strlit("0");
            assert(all_digits(text@));
        }
        Scalar { text }
    }

    pub fn one() -> (r: Scalar)
        ensures
            r@ == seq!['1'],
            r.wf(),
    {
        let text = String::from_str("1");
        proof {
            reveal_strlit("1");
            assert(all_digits(text@));
        }
        Scalar { text }
    }

    /// The decimal text of this coordinate.
    pub fn text(&self) -> (r: String)
        ensures
            r@ == self@,
    {
        self.text.clone()
    }

    pub fn same(&self, other: &Scalar) -> (r: bool)
        ensures
            r == (self@ == other@),
    {
        self.text == other.text
    }
}

impl Clone for Scalar {
    fn clone(&self) -> (r: Scalar)
        ensures
            r == *self,
    {
        Scalar { text: self.text.clone() }
    }
}

/// Three coordinates: a position, a rotation in degrees or a scale.
pub struct Vec3 {
    pub x: Scalar,
    pub y: Scalar,
    pub z: Scalar,
}

impl View for Vec3 {
    type V = Vec3View;

    open spec fn view(&self) -> Vec3View {
        (self.x@, self.y@, self.z@)
    }
}

impl Clone for Vec3 {
    fn clone(&self) -> (r: Vec3)
        ensures
            r == *self,
    {
        Vec3 { x: self.x.clone(), y: self.y.clone(), z: self.z.clone() }
    }
}

impl Vec3 {
    pub open spec fn wf(&self) -> bool {
        vec3_valid(self@)
    }

    pub fn new(x: Scalar, y: Scalar, z: Scalar) -> (r: Vec3)
        ensures
            r.x == x,
            r.y == y,
            r.z == z,
    {
        Vec3 { x, y, z }
    }

    pub fn zero() -> (r: Vec3)
        ensures
            r@ == zero_vec3(),
            r.wf(),
    {
        Vec3 { x: Scalar::zero(), y: Scalar::zero(), z: Scalar::zero() }
    }

    pub fn one() -> (r: Vec3)
        ensures
            r@ == one_vec3(),
            r.wf(),
    {
        Vec3 { x: Scalar::one(), y: Scalar::one(), z: Scalar::one() }
    }
}

/// Where an object stands, how it is turned and how large it is.
pub struct Transform {
    pub position: Vec3,
    pub rotation: Vec3,
    pub size: Vec3,
}

impl View for Transform {
    type V = TransformView;

    open spec fn view(&self) -> TransformView {
        (self.position@, self.rotation@, self.size@)
    }
}

impl Clone for Transform {
    fn clone(&self) -> (r: Transform)
        ensures
            r == *self,
    {
        Transform {
            position: self.position.clone(),
            rotation: self.rotation.clone(),
            size: self.size.clone(),
        }
    }
}

impl Transform {
    pub open spec fn wf(&self) -> bool {
        transform_valid(self@)
    }

    pub fn new(position: Vec3, rotation: Vec3, size: Vec3) -> (r: Transform)
        ensures
            r.position == position,
            r.rotation == rotation,
            r.size == size,
    {
        Transform { position, rotation, size }
    }

    /// At the origin, not turned, of size one on each axis.
    pub fn identity() -> (r: Transform)
        ensures
            r@ == identity_transform(),
            r.wf(),
    {
        Transform { position: Vec3::zero(), rotation: Vec3::zero(), size: Vec3::one() }
    }
}

} // verus!

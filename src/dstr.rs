use std::cmp::Ordering;
use std::str::Utf8Error;
use std::sync::Arc;
use vstd::prelude::*;
use vstd::slice::slice_subrange;
use vstd::utf8::{decode_utf8, encode_utf8, valid_utf8};

verus! {

broadcast use vstd::utf8::group_utf8_lib;

/// The longest text, in bytes, that is kept inline.
pub const INLINE_LEN: usize = 22;

#[verifier::external_type_specification]
#[verifier::external_body]
pub struct ExUtf8Error(Utf8Error);

/// Relies on `std::str::from_utf8`: it succeeds exactly on valid UTF-8, and
/// then reads the same bytes as text.
#[verifier::external_body]
fn utf8_str(b: &[u8]) -> (r: Result<&str, Utf8Error>)
    ensures
        r is Ok <==> valid_utf8(b@),
        r matches Ok(s) ==> s@ == decode_utf8(b@),
{
    std::str::from_utf8(b)
}

/// Relies on `Hash` of `str`: feeds the text to `state`, so that equal texts
/// are hashed alike.
#[verifier::external_body]
fn hash_str<H: std::hash::Hasher>(s: &str, state: &mut H) {
    std::hash::Hash::hash(s, state)
}

#[verifier::external_type_specification]
#[verifier::external_body]
pub struct ExFormatter<'a>(std::fmt::Formatter<'a>);

#[verifier::external_type_specification]
#[verifier::external_body]
pub struct ExFmtError(std::fmt::Error);

/// Relies on `Debug` of `str`: writes the text quoted and escaped.
#[verifier::external_body]
fn debug_str(s: &str, f: &mut std::fmt::Formatter<'_>) -> (r: std::fmt::Result) {
    std::fmt::Debug::fmt(s, f)
}

/// Relies on `std::ptr::eq`: on two `&str` it compares both the address and
/// the length, so equal pointers show the same text.
#[verifier::external_body]
fn str_ptr_eq(a: &'static str, b: &'static str) -> (r: bool)
    ensures
        r ==> a@ == b@,
{
    std::ptr::eq(a, b)
}

/// Relies on `Arc::ptr_eq`: equal pointers share one allocation, hence one
/// string.
#[verifier::external_body]
fn arc_ptr_eq(a: &Arc<String>, b: &Arc<String>) -> (r: bool)
    ensures
        r ==> a@ == b@,
{
    Arc::ptr_eq(a, b)
}

/// Relies on `Arc::make_mut`: the string behind `a`, first copied into a
/// fresh allocation if it is shared, so that what is written through the
/// result is what `a` then holds.
#[verifier::external_body]
fn arc_make_mut(a: &mut Arc<String>) -> (r: &mut String)
    ensures
        (*r)@ == (*old(a))@,
        (*final(a))@ == (*final(r))@,
{
    Arc::make_mut(a)
}

/// Text of at most `INLINE_LEN` bytes, stored inline.
#[derive(Clone, Copy)]
pub struct StackBuf {
    len: u8,
    bytes: [u8; 22],
}

impl StackBuf {
    #[verifier::type_invariant]
    spec fn inv(&self) -> bool {
        &&& self.len <= INLINE_LEN
        &&& valid_utf8(self.bytes@.take(self.len as int))
    }

    /// The bytes in use.
    pub closed spec fn used(&self) -> Seq<u8> {
        self.bytes@.take(self.len as int)
    }
}

impl View for StackBuf {
    type V = Seq<char>;

    closed spec fn view(&self) -> Seq<char> {
        decode_utf8(self.used())
    }
}

/// Where the text of a `DStr` lives.
pub enum Repr {
    /// A string slice that lives for the whole program.
    Static(&'static str),
    /// A short text held inline.
    Stack(StackBuf),
    /// A string on the heap, shared between clones.
    Heap(Arc<String>),
}

/// A compact string.
///
/// Static string slices are borrowed, text of up to `INLINE_LEN` bytes is
/// kept inline, and longer text sits in a [`String`] behind an [`Arc`], so
/// that cloning copies the pointer.
pub struct DStr(pub Repr);

impl View for DStr {
    type V = Seq<char>;

    open spec fn view(&self) -> Seq<char> {
        match self.0 {
            Repr::Static(s) => s@,
            Repr::Stack(b) => b@,
            Repr::Heap(h) => h@,
        }
    }
}

/// Lexicographic order on bytes, as `str` orders its UTF-8 encoding.
pub open spec fn byte_cmp(a: Seq<u8>, b: Seq<u8>) -> Ordering
    decreases a.len(),
{
    if a.len() == 0 {
        if b.len() == 0 {
            Ordering::Equal
        } else {
            Ordering::Less
        }
    } else if b.len() == 0 {
        Ordering::Greater
    } else if a[0] < b[0] {
        Ordering::Less
    } else if a[0] > b[0] {
        Ordering::Greater
    } else {
        byte_cmp(a.drop_first(), b.drop_first())
    }
}

/// The order of two texts: that of their UTF-8 encodings.
pub open spec fn text_cmp(a: Seq<char>, b: Seq<char>) -> Ordering {
    byte_cmp(encode_utf8(a), encode_utf8(b))
}

proof fn lemma_byte_cmp_refl(a: Seq<u8>)
    ensures
        byte_cmp(a, a) == Ordering::Equal,
    decreases a.len(),
{
    if a.len() > 0 {
        lemma_byte_cmp_refl(a.drop_first());
    }
}

fn stack_as_str(b: &StackBuf) -> (r: &str)
    ensures
        r@ == b@,
{
    proof {
        use_type_invariant(b);
    }
    let used = slice_subrange(b.bytes.as_slice(), 0, b.len as usize);
    match utf8_str(used) {
        Ok(s) => s,
        Err(_) => vstd::pervasive::unreached(),
    }
}

/// Whether two string slices hold the same text, compared byte by byte.
pub(crate) fn str_eq(a: &str, b: &str) -> (r: bool)
    ensures
        r == (a@ == b@),
{
    let x = a.as_bytes();
    let y = b.as_bytes();
    proof {
        vstd::utf8::encode_utf8_decode_utf8(a@);
        vstd::utf8::encode_utf8_decode_utf8(b@);
    }
    assert(x@ == encode_utf8(a@));
    assert(y@ == encode_utf8(b@));
    if x.len() != y.len() {
        return false;
    }
    let n = x.len();
    let mut i: usize = 0;
    while i < n
        invariant
            x@ == encode_utf8(a@),
            y@ == encode_utf8(b@),
            n == x@.len(),
            n == y@.len(),
            i <= n,
            forall|j: int| 0 <= j < i ==> x@[j] == y@[j],
        decreases n - i,
    {
        if x[i] != y[i] {
            assert(x@[i as int] != y@[i as int]);
            assert(x@ != y@);
            return false;
        }
        i = i + 1;
    }
    assert(x@ =~= y@);
    true
}

/// The order of two string slices, compared byte by byte.
fn str_cmp(a: &str, b: &str) -> (r: Ordering)
    ensures
        r == text_cmp(a@, b@),
{
    let x = a.as_bytes();
    let y = b.as_bytes();
    assert(x@ == encode_utf8(a@));
    assert(y@ == encode_utf8(b@));
    assert(x@.skip(0) =~= x@);
    assert(y@.skip(0) =~= y@);
    let mut i: usize = 0;
    while i < x.len() && i < y.len()
        invariant
            x@ == encode_utf8(a@),
            y@ == encode_utf8(b@),
            i <= x@.len(),
            i <= y@.len(),
            byte_cmp(x@, y@) == byte_cmp(x@.skip(i as int), y@.skip(i as int)),
        decreases x@.len() - i,
    {
        assert(x@.skip(i as int)[0] == x@[i as int]);
        assert(y@.skip(i as int)[0] == y@[i as int]);
        if x[i] < y[i] {
            return Ordering::Less;
        }
        if x[i] > y[i] {
            return Ordering::Greater;
        }
        assert(x@.skip(i as int).drop_first() =~= x@.skip(i + 1));
        assert(y@.skip(i as int).drop_first() =~= y@.skip(i + 1));
        i = i + 1;
    }
    if i < x.len() {
        Ordering::Greater
    } else if i < y.len() {
        Ordering::Less
    } else {
        Ordering::Equal
    }
}

impl DStr {
    /// Create a `DStr` holding the text of `string`: inline when it fits in
    /// `INLINE_LEN` bytes, else on the heap.
    pub fn new(string: &str) -> (r: Self)
        ensures
            r@ == string@,
            r.0 is Stack <==> encode_utf8(string@).len() <= INLINE_LEN,
            r.0 is Heap <==> encode_utf8(string@).len() > INLINE_LEN,
    {
        let src = string.as_bytes();
        assert(src@ == encode_utf8(string@));
        let len = src.len();
        if len <= INLINE_LEN {
            let mut arr = [0u8; 22];
            let mut i: usize = 0;
            while i < len
                invariant
                    len == src@.len(),
                    len <= INLINE_LEN,
                    i <= len,
                    forall|j: int| 0 <= j < i ==> arr@[j] == src@[j],
                decreases len - i,
            {
                arr[i] = src[i];
                i = i + 1;
            }
            assert(arr@.take(len as int) =~= src@);
            let buf = StackBuf { len: len as u8, bytes: arr };
            assert(buf.used() == encode_utf8(string@));
            DStr(Repr::Stack(buf))
        } else {
            DStr(Repr::Heap(Arc::new(string.to_owned())))
        }
    }

    /// The text as a string slice.
    pub fn as_str(&self) -> (r: &str)
        ensures
            r@ == self@,
    {
        match &self.0 {
            Repr::Static(x) => *x,
            Repr::Stack(x) => stack_as_str(x),
            Repr::Heap(x) => x.as_str(),
        }
    }

    /// Consume the `DStr` and turn it into a `String`, allocating if
    /// necessary.
    pub fn into_string(self) -> (r: String)
        ensures
            r@ == self@,
    {
        match self.0 {
            Repr::Static(x) => x.to_owned(),
            Repr::Stack(x) => stack_as_str(&x).to_owned(),
            Repr::Heap(x) => String::clone(&*x),
        }
    }

    /// A mutable reference to the string, moved first to the heap if it is
    /// not already there, and copied if its heap string is shared.
    pub fn to_mut(&mut self) -> (r: &mut String)
        ensures
            (*r)@ == old(self)@,
            (*final(self))@ == (*final(r))@,
            final(self).0 is Heap,
    {
        let owned = match &self.0 {
            Repr::Static(x) => Some(str::to_owned(*x)),
            Repr::Stack(x) => Some(stack_as_str(x).to_owned()),
            Repr::Heap(_) => None,
        };
        if let Some(s) = owned {
            self.0 = Repr::Heap(Arc::new(s));
        }
        match &mut self.0 {
            Repr::Heap(x) => arc_make_mut(x),
            _ => vstd::pervasive::unreached(),
        }
    }

    /// Whether two `DStr`s share one pointer: the same `&'static str`, or the
    /// same `Arc<String>`. A shared pointer means equal text.
    pub fn ptr_eq(this: &DStr, other: &DStr) -> (r: bool)
        ensures
            r ==> this@ == other@,
            r ==> (this.0 is Static && other.0 is Static) || (this.0 is Heap && other.0 is Heap),
    {
        match (&this.0, &other.0) {
            (Repr::Static(a), Repr::Static(b)) => str_ptr_eq(a, b),
            (Repr::Heap(a), Repr::Heap(b)) => arc_ptr_eq(a, b),
            _ => false,
        }
    }

    /// The order of the two texts, byte by byte as `str` orders them.
    pub fn cmp(&self, other: &DStr) -> (r: Ordering)
        ensures
            r == text_cmp(self@, other@),
    {
        if DStr::ptr_eq(self, other) {
            proof {
                lemma_byte_cmp_refl(encode_utf8(self@));
            }
            Ordering::Equal
        } else {
            str_cmp(self.as_str(), other.as_str())
        }
    }
}

impl PartialEq for DStr {
    /// Equal text; a shared pointer settles it without reading the text.
    fn eq(&self, other: &DStr) -> (r: bool) {
        if DStr::ptr_eq(self, other) {
            true
        } else {
            str_eq(self.as_str(), other.as_str())
        }
    }
}

impl vstd::std_specs::cmp::PartialEqSpecImpl for DStr {
    open spec fn obeys_eq_spec() -> bool {
        true
    }

    open spec fn eq_spec(&self, other: &DStr) -> bool {
        self@ == other@
    }
}

impl Eq for DStr {}

impl PartialOrd for DStr {
    fn partial_cmp(&self, other: &DStr) -> (r: Option<Ordering>) {
        Some(self.cmp(other))
    }
}

impl vstd::std_specs::cmp::PartialOrdSpecImpl for DStr {
    open spec fn obeys_partial_cmp_spec() -> bool {
        true
    }

    open spec fn partial_cmp_spec(&self, other: &DStr) -> Option<Ordering> {
        Some(text_cmp(self@, other@))
    }
}

impl Clone for DStr {
    /// A static slice and a heap string are shared; inline text is copied.
    fn clone(&self) -> (r: DStr)
        ensures
            r@ == self@,
    {
        match &self.0 {
            Repr::Static(s) => DStr(Repr::Static(*s)),
            Repr::Stack(b) => DStr(Repr::Stack(*b)),
            Repr::Heap(h) => DStr(Repr::Heap(Arc::clone(h))),
        }
    }
}

impl Default for DStr {
    /// The empty text, on the heap.
    fn default() -> (r: DStr)
        ensures
            r@ == Seq::<char>::empty(),
    {
        DStr(Repr::Heap(Arc::new(String::new())))
    }
}

impl From<&'static str> for DStr {
    /// Borrows the static slice.
    fn from(x: &'static str) -> (r: DStr) {
        DStr(Repr::Static(x))
    }
}

impl vstd::std_specs::convert::FromSpecImpl<&'static str> for DStr {
    open spec fn obeys_from_spec() -> bool {
        true
    }

    open spec fn from_spec(x: &'static str) -> DStr {
        DStr(Repr::Static(x))
    }
}

impl From<String> for DStr {
    /// Moves the string to the heap, without copying its text.
    fn from(x: String) -> (r: DStr)
        ensures
            r@ == x@,
            r.0 is Heap,
    {
        DStr(Repr::Heap(Arc::new(x)))
    }
}

impl vstd::std_specs::convert::FromSpecImpl<String> for DStr {
    open spec fn obeys_from_spec() -> bool {
        true
    }

    open spec fn from_spec(x: String) -> DStr {
        DStr(Repr::Heap(Arc::new(x)))
    }
}

impl From<&String> for DStr {
    /// Copies the text: inline when it fits, else into a new heap string.
    fn from(x: &String) -> (r: DStr)
        ensures
            r@ == x@,
            r.0 is Stack <==> encode_utf8(x@).len() <= INLINE_LEN,
    {
        DStr::new(x.as_str())
    }
}

impl vstd::std_specs::convert::FromSpecImpl<&String> for DStr {
    open spec fn obeys_from_spec() -> bool {
        false
    }

    open spec fn from_spec(x: &String) -> DStr {
        DStr(Repr::Heap(Arc::new(*x)))
    }
}

impl From<&mut String> for DStr {
    /// Copies the text: inline when it fits, else into a new heap string.
    fn from(x: &mut String) -> (r: DStr)
        ensures
            r@ == (*old(x))@,
            r.0 is Stack <==> encode_utf8((*old(x))@).len() <= INLINE_LEN,
            *final(x) == *old(x),
    {
        DStr::new(x.as_str())
    }
}

impl vstd::std_specs::convert::FromSpecImpl<&mut String> for DStr {
    open spec fn obeys_from_spec() -> bool {
        false
    }

    open spec fn from_spec(x: &mut String) -> DStr {
        DStr(Repr::Heap(Arc::new(*x)))
    }
}

impl From<Arc<String>> for DStr {
    /// Takes the shared string as it is.
    fn from(x: Arc<String>) -> (r: DStr) {
        DStr(Repr::Heap(x))
    }
}

impl vstd::std_specs::convert::FromSpecImpl<Arc<String>> for DStr {
    open spec fn obeys_from_spec() -> bool {
        true
    }

    open spec fn from_spec(x: Arc<String>) -> DStr {
        DStr(Repr::Heap(x))
    }
}

impl From<&Arc<String>> for DStr {
    /// Shares the string: the result is pointer-equal to any other `DStr`
    /// made from the same `Arc`.
    fn from(x: &Arc<String>) -> (r: DStr)
        ensures
            r@ == x@,
            r.0 is Heap,
    {
        DStr(Repr::Heap(Arc::clone(x)))
    }
}

impl vstd::std_specs::convert::FromSpecImpl<&Arc<String>> for DStr {
    open spec fn obeys_from_spec() -> bool {
        false
    }

    open spec fn from_spec(x: &Arc<String>) -> DStr {
        DStr(Repr::Heap(*x))
    }
}

impl std::str::FromStr for DStr {
    type Err = std::convert::Infallible;

    fn from_str(s: &str) -> (r: Result<DStr, std::convert::Infallible>)
        ensures
            r matches Ok(d) && d@ == s@,
    {
        Ok(DStr::new(s))
    }
}

impl AsRef<str> for DStr {
    fn as_ref(&self) -> (r: &str)
        ensures
            r@ == self@,
    {
        self.as_str()
    }
}

impl std::ops::Deref for DStr {
    type Target = str;

    fn deref(&self) -> (r: &str)
        ensures
            r@ == self@,
    {
        self.as_str()
    }
}

impl std::borrow::Borrow<str> for DStr {
    fn borrow(&self) -> &str {
        self.as_str()
    }
}

impl PartialEq<str> for DStr {
    fn eq(&self, other: &str) -> (r: bool) {
        str_eq(self.as_str(), other)
    }
}

impl vstd::std_specs::cmp::PartialEqSpecImpl<str> for DStr {
    open spec fn obeys_eq_spec() -> bool {
        true
    }

    open spec fn eq_spec(&self, other: &str) -> bool {
        self@ == other@
    }
}

impl PartialOrd<str> for DStr {
    fn partial_cmp(&self, other: &str) -> (r: Option<Ordering>) {
        Some(str_cmp(self.as_str(), other))
    }
}

impl vstd::std_specs::cmp::PartialOrdSpecImpl<str> for DStr {
    open spec fn obeys_partial_cmp_spec() -> bool {
        true
    }

    open spec fn partial_cmp_spec(&self, other: &str) -> Option<Ordering> {
        Some(text_cmp(self@, other@))
    }
}

impl std::hash::Hash for DStr {
    /// Hashes the text, as `str` does, so that equal texts hash alike.
    fn hash<H: std::hash::Hasher>(&self, state: &mut H) {
        hash_str(self.as_str(), state)
    }
}

impl std::fmt::Debug for DStr {
    /// Shows the text as a `str` shows it, whatever its representation.
    fn fmt(&self, f: &mut std::fmt::Formatter<'_>) -> std::fmt::Result {
        debug_str(self.as_str(), f)
    }
}

impl From<std::borrow::Cow<'static, str>> for DStr {
    /// A borrowed slice stays borrowed; an owned string moves to the heap.
    fn from(x: std::borrow::Cow<'static, str>) -> (r: DStr) {
        match x {
            std::borrow::Cow::Borrowed(b) => DStr::from(b),
            std::borrow::Cow::Owned(o) => DStr::from(o),
        }
    }
}

impl vstd::std_specs::convert::FromSpecImpl<std::borrow::Cow<'static, str>> for DStr {
    open spec fn obeys_from_spec() -> bool {
        true
    }

    open spec fn from_spec(x: std::borrow::Cow<'static, str>) -> DStr {
        match x {
            std::borrow::Cow::Borrowed(b) => DStr(Repr::Static(b)),
            std::borrow::Cow::Owned(o) => DStr(Repr::Heap(Arc::new(o))),
        }
    }
}

} // verus!

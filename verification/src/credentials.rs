//! Reading a network name and password typed over the serial line into
//! fixed-capacity buffers: every byte is echoed (the password as `*`), a
//! carriage return ends the entry, and the text must be UTF-8.

use vstd::prelude::*;

verus! {

/// A vector of the `heapless` crate that holds at most `N` items in place.
#[verifier::external_type_specification]
#[verifier::external_body]
#[verifier::reject_recursive_types(T)]
pub struct ExHeaplessVec<T, const N: usize>(heapless::Vec<T, N>);

/// A string of the `heapless` crate that holds at most `N` bytes in place.
#[verifier::external_type_specification]
#[verifier::external_body]
pub struct ExHeaplessString<const N: usize>(heapless::String<N>);

/// The error of a failed UTF-8 check.
#[verifier::external_type_specification]
#[verifier::external_body]
pub struct ExUtf8Error(core::str::Utf8Error);

/// Capacity, in bytes, of the network name.
pub const SSID_CAPACITY: usize = 32;

/// Capacity, in bytes, of the password.
pub const PASSWORD_CAPACITY: usize = 64;

/// The byte that ends an entry: carriage return.
pub const END_OF_ENTRY: u8 = 13;

/// The byte echoed in place of each password byte: `*`.
pub const PASSWORD_MASK: u8 = 42;

/// The bytes a 32-byte buffer holds, in order.
pub uninterp spec fn ssid_bytes(v: heapless::Vec<u8, 32>) -> Seq<u8>;

/// The bytes a 64-byte buffer holds, in order.
pub uninterp spec fn password_bytes(v: heapless::Vec<u8, 64>) -> Seq<u8>;

/// The bytes of a 32-byte string.
pub uninterp spec fn ssid_text_bytes(s: heapless::String<32>) -> Seq<u8>;

/// The bytes of a 64-byte string.
pub uninterp spec fn password_text_bytes(s: heapless::String<64>) -> Seq<u8>;

/// An empty 32-byte buffer, through `heapless::Vec::new`.
#[verifier::external_body]
fn new_ssid_vec() -> (v: heapless::Vec<u8, 32>)
    ensures
        ssid_bytes(v) == Seq::<u8>::empty(),
{
    heapless::Vec::new()
}

/// An empty 64-byte buffer, through `heapless::Vec::new`.
#[verifier::external_body]
fn new_password_vec() -> (v: heapless::Vec<u8, 64>)
    ensures
        password_bytes(v) == Seq::<u8>::empty(),
{
    heapless::Vec::new()
}

/// Appends `more` to a 32-byte buffer, through
/// `heapless::Vec::extend_from_slice`: as its source shows, it fails and
/// changes nothing when the result would exceed the capacity, and appends
/// all of `more` otherwise.
#[verifier::external_body]
fn extend_ssid_vec(v: &mut heapless::Vec<u8, 32>, more: &[u8]) -> (r: Result<(), ()>)
    ensures
        ssid_bytes(*old(v)).len() + more@.len() > 32 ==> r is Err && ssid_bytes(*final(v)) == ssid_bytes(
            *old(v),
        ),
        ssid_bytes(*old(v)).len() + more@.len() <= 32 ==> r is Ok && ssid_bytes(*final(v))
            == ssid_bytes(*old(v)) + more@,
{
    v.extend_from_slice(more)
}

/// Appends `more` to a 64-byte buffer, through
/// `heapless::Vec::extend_from_slice`, with the same behaviour at its
/// capacity of 64.
#[verifier::external_body]
fn extend_password_vec(v: &mut heapless::Vec<u8, 64>, more: &[u8]) -> (r: Result<(), ()>)
    ensures
        password_bytes(*old(v)).len() + more@.len() > 64 ==> r is Err && password_bytes(*final(v))
            == password_bytes(*old(v)),
        password_bytes(*old(v)).len() + more@.len() <= 64 ==> r is Ok && password_bytes(*final(v))
            == password_bytes(*old(v)) + more@,
{
    v.extend_from_slice(more)
}

/// The text in a 32-byte buffer, through `heapless::String::from_utf8`,
/// which succeeds exactly when the bytes are valid UTF-8 and then keeps
/// them as they are.
#[verifier::external_body]
fn ssid_vec_into_string(v: heapless::Vec<u8, 32>) -> (r: Result<heapless::String<32>, core::str::Utf8Error>)
    ensures
        r is Ok <==> vstd::utf8::valid_utf8(ssid_bytes(v)),
        r matches Ok(s) ==> ssid_text_bytes(s) == ssid_bytes(v),
{
    heapless::String::from_utf8(v)
}

/// The text in a 64-byte buffer, through `heapless::String::from_utf8`,
/// which succeeds exactly when the bytes are valid UTF-8 and then keeps
/// them as they are.
#[verifier::external_body]
fn password_vec_into_string(v: heapless::Vec<u8, 64>) -> (r: Result<heapless::String<64>, core::str::Utf8Error>)
    ensures
        r is Ok <==> vstd::utf8::valid_utf8(password_bytes(v)),
        r matches Ok(s) ==> password_text_bytes(s) == password_bytes(v),
{
    heapless::String::from_utf8(v)
}

/// Where an entry stands after one more byte.
#[derive(PartialEq, Eq, Structural, Debug, Clone, Copy)]
pub enum EntryStep {
    /// The byte ended the entry.
    Done,
    /// The byte was stored; more may follow.
    More,
}

/// Why an entry was refused.
#[derive(PartialEq, Eq, Structural, Debug, Clone, Copy)]
pub enum CredentialError {
    /// More bytes were typed than the buffer holds.
    TooLong,
    /// The bytes typed are not UTF-8 text.
    NotUtf8,
}

/// The network name as typed so far.
pub struct SsidEntry {
    buf: heapless::Vec<u8, 32>,
}

/// The password as typed so far.
pub struct PasswordEntry {
    buf: heapless::Vec<u8, 64>,
}

impl SsidEntry {
    /// The bytes typed so far.
    pub closed spec fn typed(&self) -> Seq<u8> {
        ssid_bytes(self.buf)
    }

    /// An entry with nothing typed yet.
    pub fn new() -> (e: SsidEntry)
        ensures
            e.typed() == Seq::<u8>::empty(),
    {
        SsidEntry { buf: new_ssid_vec() }
    }

    /// The byte echoed back for a typed byte: the byte itself.
    pub fn echo(byte: u8) -> (e: u8)
        ensures
            e == byte,
    {
        byte
    }

    /// Takes one typed byte: a carriage return ends the entry, any other
    /// byte is stored, unless the 32 bytes are already used.
    pub fn push(&mut self, byte: u8) -> (r: Result<EntryStep, CredentialError>)
        ensures
            byte == END_OF_ENTRY ==> r == Ok::<EntryStep, CredentialError>(EntryStep::Done)
                && final(self).typed() == old(self).typed(),
            byte != END_OF_ENTRY && old(self).typed().len() < SSID_CAPACITY ==> r == Ok::<
                EntryStep,
                CredentialError,
            >(EntryStep::More) && final(self).typed() == old(self).typed().push(byte),
            old(self).typed().len() <= SSID_CAPACITY ==> final(self).typed().len() <= SSID_CAPACITY,
            byte != END_OF_ENTRY && old(self).typed().len() >= SSID_CAPACITY ==> r == Err::<
                EntryStep,
                CredentialError,
            >(CredentialError::TooLong) && final(self).typed() == old(self).typed(),
    {
        if byte == END_OF_ENTRY {
            return Ok(EntryStep::Done);
        }
        let one = [byte];
        assert(one@ =~= seq![byte]);
        match extend_ssid_vec(&mut self.buf, &one) {
            Ok(()) => {
                assert(old(self).typed() + one@ =~= old(self).typed().push(byte));
                Ok(EntryStep::More)
            },
            Err(()) => Err(CredentialError::TooLong),
        }
    }

    /// The typed network name as text, if it is UTF-8.
    pub fn finish(self) -> (r: Result<heapless::String<32>, CredentialError>)
        ensures
            r is Ok <==> vstd::utf8::valid_utf8(self.typed()),
            r matches Ok(s) ==> ssid_text_bytes(s) == self.typed(),
            r matches Err(e) ==> e == CredentialError::NotUtf8,
    {
        match ssid_vec_into_string(self.buf) {
            Ok(s) => Ok(s),
            Err(_) => Err(CredentialError::NotUtf8),
        }
    }
}

impl PasswordEntry {
    /// The bytes typed so far.
    pub closed spec fn typed(&self) -> Seq<u8> {
        password_bytes(self.buf)
    }

    /// An entry with nothing typed yet.
    pub fn new() -> (e: PasswordEntry)
        ensures
            e.typed() == Seq::<u8>::empty(),
    {
        PasswordEntry { buf: new_password_vec() }
    }

    /// The byte echoed back for a typed byte: always `*`.
    pub fn echo(byte: u8) -> (e: u8)
        ensures
            e == PASSWORD_MASK,
    {
        PASSWORD_MASK
    }

    /// Takes one typed byte: a carriage return ends the entry, any other
    /// byte is stored, unless the 64 bytes are already used.
    pub fn push(&mut self, byte: u8) -> (r: Result<EntryStep, CredentialError>)
        ensures
            byte == END_OF_ENTRY ==> r == Ok::<EntryStep, CredentialError>(EntryStep::Done)
                && final(self).typed() == old(self).typed(),
            byte != END_OF_ENTRY && old(self).typed().len() < PASSWORD_CAPACITY ==> r == Ok::<
                EntryStep,
                CredentialError,
            >(EntryStep::More) && final(self).typed() == old(self).typed().push(byte),
            old(self).typed().len() <= PASSWORD_CAPACITY ==> final(self).typed().len() <= PASSWORD_CAPACITY,
            byte != END_OF_ENTRY && old(self).typed().len() >= PASSWORD_CAPACITY ==> r == Err::<
                EntryStep,
                CredentialError,
            >(CredentialError::TooLong) && final(self).typed() == old(self).typed(),
    {
        if byte == END_OF_ENTRY {
            return Ok(EntryStep::Done);
        }
        let one = [byte];
        assert(one@ =~= seq![byte]);
        match extend_password_vec(&mut self.buf, &one) {
            Ok(()) => {
                assert(old(self).typed() + one@ =~= old(self).typed().push(byte));
                Ok(EntryStep::More)
            },
            Err(()) => Err(CredentialError::TooLong),
        }
    }

    /// The typed password as text, if it is UTF-8.
    pub fn finish(self) -> (r: Result<heapless::String<64>, CredentialError>)
        ensures
            r is Ok <==> vstd::utf8::valid_utf8(self.typed()),
            r matches Ok(s) ==> password_text_bytes(s) == self.typed(),
            r matches Err(e) ==> e == CredentialError::NotUtf8,
    {
        match password_vec_into_string(self.buf) {
            Ok(s) => Ok(s),
            Err(_) => Err(CredentialError::NotUtf8),
        }
    }
}

} // verus!

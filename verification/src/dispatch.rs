//! Method numbers by name: a method is called by the number that a hash of
//! its name gives, so that actors agree on numbers without a registry.

use crate::messaging::ErrorNumber;
use vstd::prelude::*;
use vstd::string::StringSliceAdditionalSpecFns;

verus! {

/// The number of the constructor, which is fixed.
pub const CONSTRUCTOR_METHOD_NUMBER: u64 = 1;

/// The smallest number that a hash may give: the numbers below are reserved.
pub const FIRST_METHOD_NUMBER: u64 = 16777216;

/// A hash function on byte strings.
pub trait Hasher {
    /// The digest of a byte string. An implementation that does not say
    /// what it computes leaves the digest unspecified.
    open spec fn digest(&self, bytes: Seq<u8>) -> Seq<u8> {
        arbitrary()
    }

    /// Computes the digest.
    fn hash(&self, bytes: &[u8]) -> (r: Vec<u8>)
        ensures
            r@ == self.digest(bytes@),
    ;
}

/// The BLAKE2b hash of a byte string, with default parameters (64 bytes).
pub uninterp spec fn blake2b_512(bytes: Seq<u8>) -> Seq<u8>;

/// Calls `blake2b_simd::blake2b` and copies the bytes of the hash. The
/// contract claims only that the bytes are a function of the input.
#[verifier::external_body]
fn blake2b(bytes: &[u8]) -> (r: Vec<u8>)
    ensures
        r@ == blake2b_512(bytes@),
{
    blake2b_simd::blake2b(bytes).as_bytes().to_vec()
}

/// The hasher that method numbers are made with.
#[derive(Clone, Copy, Debug, Default)]
pub struct Blake2bHasher {}

impl Hasher for Blake2bHasher {
    open spec fn digest(&self, bytes: Seq<u8>) -> Seq<u8> {
        blake2b_512(bytes)
    }

    fn hash(&self, bytes: &[u8]) -> (r: Vec<u8>) {
        blake2b(bytes)
    }
}

/// What is wrong with a method name.
#[derive(Clone, Copy, Debug, PartialEq, Eq)]
pub enum IllegalNameErr {
    /// The name starts with neither a capital letter nor an underscore.
    NotValidStart,
    /// The name holds a character that is no letter, digit or underscore.
    IllegalCharacters,
}

/// Why a name has no method number.
#[derive(Clone, Copy, Debug, PartialEq, Eq)]
pub enum MethodNameErr {
    /// The name is empty.
    EmptyString,
    /// The name is not well formed.
    IllegalName(IllegalNameErr),
    /// No part of the digest is a number that may be used.
    IndeterminableId,
}

/// A capital letter of ASCII.
pub open spec fn is_capital(b: u8) -> bool {
    65 <= b <= 90
}

/// A letter or digit of ASCII, or an underscore.
pub open spec fn is_word_byte(b: u8) -> bool {
    (65 <= b <= 90) || (97 <= b <= 122) || (48 <= b <= 57) || b == 95
}

/// Whether a name is well formed: not empty, starting with a capital
/// letter or an underscore, and made of letters, digits and underscores.
pub open spec fn name_checked(name: Seq<u8>) -> Result<(), MethodNameErr> {
    if name.len() == 0 {
        Err(MethodNameErr::EmptyString)
    } else if !(is_capital(name[0]) || name[0] == 95) {
        Err(MethodNameErr::IllegalName(IllegalNameErr::NotValidStart))
    } else if !(forall|i: int| 0 <= i < name.len() ==> is_word_byte(#[trigger] name[i])) {
        Err(MethodNameErr::IllegalName(IllegalNameErr::IllegalCharacters))
    } else {
        Ok(())
    }
}

/// The name of the constructor, as bytes.
pub open spec fn constructor_name() -> Seq<u8> {
    seq![67u8, 111u8, 110u8, 115u8, 116u8, 114u8, 117u8, 99u8, 116u8, 111u8, 114u8]
}

/// What is hashed for a name: the name behind the domain separation tag `1|`.
pub open spec fn tagged(name: Seq<u8>) -> Seq<u8> {
    seq![49u8, 124u8] + name
}

/// The number that four bytes stand for, most significant first.
pub open spec fn chunk_number(d: Seq<u8>, i: int) -> u64 {
    (d[4 * i] * 16777216 + d[4 * i + 1] * 65536 + d[4 * i + 2] * 256 + d[4 * i + 3]) as u64
}

/// The first four-byte chunk of the digest, from chunk `from` on, that is a
/// number which may be used; there is none if the digest runs out first.
pub open spec fn first_number(d: Seq<u8>, from: nat) -> Result<u64, MethodNameErr>
    decreases d.len() - 4 * from,
{
    if 4 * from + 4 > d.len() {
        Err(MethodNameErr::IndeterminableId)
    } else if chunk_number(d, from as int) >= FIRST_METHOD_NUMBER {
        Ok(chunk_number(d, from as int))
    } else {
        first_number(d, from + 1)
    }
}

/// The method number of a name under a hash function: the constructor has
/// number one; any other well-formed name has the first usable number in
/// the digest of the tagged name.
pub open spec fn method_number_of<T: Hasher>(hasher: T, name: Seq<u8>) -> Result<u64, MethodNameErr> {
    match name_checked(name) {
        Err(e) => Err(e),
        Ok(_) => if name == constructor_name() {
            Ok(CONSTRUCTOR_METHOD_NUMBER)
        } else {
            first_number(hasher.digest(tagged(name)), 0)
        },
    }
}

/// A method number is the constructor's, or is not among the reserved numbers.
pub proof fn lemma_method_numbers_not_reserved<T: Hasher>(hasher: T, name: Seq<u8>)
    ensures
        method_number_of(hasher, name) is Ok ==> method_number_of(hasher, name).unwrap()
            == CONSTRUCTOR_METHOD_NUMBER || FIRST_METHOD_NUMBER <= method_number_of(
            hasher,
            name,
        ).unwrap() < 4294967296,
{
    if name_checked(name) is Ok && name != constructor_name() {
        lemma_first_number(hasher.digest(tagged(name)), 0);
    }
}

proof fn lemma_first_number(d: Seq<u8>, from: nat)
    ensures
        first_number(d, from) is Ok ==> FIRST_METHOD_NUMBER <= first_number(d, from).unwrap()
            < 4294967296,
    decreases d.len() - 4 * from,
{
    if 4 * from + 4 > d.len() {
    } else if chunk_number(d, from as int) >= FIRST_METHOD_NUMBER {
    } else {
        lemma_first_number(d, from + 1);
    }
}

/// Checks that a name is well formed.
pub fn check_method_name(name: &[u8]) -> (r: Result<(), MethodNameErr>)
    ensures
        r == name_checked(name@),
{
    if name.len() == 0 {
        return Err(MethodNameErr::EmptyString);
    }
    let first = name[0];
    if !((65 <= first && first <= 90) || first == 95) {
        return Err(MethodNameErr::IllegalName(IllegalNameErr::NotValidStart));
    }
    let mut i: usize = 0;
    while i < name.len()
        invariant
            i <= name.len(),
            name@.len() > 0,
            is_capital(name@[0]) || name@[0] == 95,
            forall|j: int| 0 <= j < i ==> is_word_byte(#[trigger] name@[j]),
        decreases name.len() - i,
    {
        let b = name[i];
        if !((65 <= b && b <= 90) || (97 <= b && b <= 122) || (48 <= b && b <= 57) || b == 95) {
            assert(!is_word_byte(name@[i as int]));
            return Err(MethodNameErr::IllegalName(IllegalNameErr::IllegalCharacters));
        }
        i = i + 1;
    }
    Ok(())
}

/// Derives method numbers from method names.
#[derive(Default)]
pub struct MethodResolver<T: Hasher> {
    pub hasher: T,
}

impl<T: Hasher> MethodResolver<T> {
    /// A resolver that hashes with `hasher`.
    pub fn new(hasher: T) -> (r: Self)
        ensures
            r.hasher == hasher,
    {
        MethodResolver { hasher }
    }

    /// The method number of a name, given as its bytes.
    pub fn method_number_of_bytes(&self, name: &[u8]) -> (r: Result<u64, MethodNameErr>)
        ensures
            r == method_number_of(self.hasher, name@),
    {
        match check_method_name(name) {
            Err(e) => {
                return Err(e);
            },
            Ok(_) => {},
        }
        if is_constructor(name) {
            return Ok(CONSTRUCTOR_METHOD_NUMBER);
        }
        let mut input: Vec<u8> = Vec::new();
        input.push(49u8);
        input.push(124u8);
        let mut k: usize = 0;
        while k < name.len()
            invariant
                k <= name.len(),
                input@ == seq![49u8, 124u8] + name@.take(k as int),
            decreases name.len() - k,
        {
            input.push(name[k]);
            assert(name@.take(k + 1) =~= name@.take(k as int).push(name@[k as int]));
            k = k + 1;
            assert(input@ =~= seq![49u8, 124u8] + name@.take(k as int));
        }
        assert(name@.take(k as int) =~= name@);
        let digest = self.hasher.hash(input.as_slice());
        let mut i: usize = 0;
        while i < digest.len() / 4
            invariant
                i <= digest.len() / 4,
                name_checked(name@) is Ok,
                name@ != constructor_name(),
                digest@ == self.hasher.digest(tagged(name@)),
                first_number(digest@, 0) == first_number(digest@, i as nat),
            decreases digest.len() / 4 - i,
        {
            let b0: u64 = digest[4 * i] as u64;
            let b1: u64 = digest[4 * i + 1] as u64;
            let b2: u64 = digest[4 * i + 2] as u64;
            let b3: u64 = digest[4 * i + 3] as u64;
            let id: u64 = b0 * 16777216 + b1 * 65536 + b2 * 256 + b3;
            if id >= FIRST_METHOD_NUMBER {
                return Ok(id);
            }
            i = i + 1;
        }
        Err(MethodNameErr::IndeterminableId)
    }

    /// The method number of a name.
    pub fn method_number(&self, method_name: &str) -> (r: Result<u64, MethodNameErr>)
        ensures
            r == method_number_of(self.hasher, method_name.spec_bytes()),
    {
        self.method_number_of_bytes(method_name.as_bytes())
    }
}

/// Whether the bytes spell the name of the constructor.
pub fn is_constructor(name: &[u8]) -> (r: bool)
    ensures
        r == (name@ == constructor_name()),
{
    let expected: [u8; 11] = [67, 111, 110, 115, 116, 114, 117, 99, 116, 111, 114];
    if name.len() != 11 {
        return false;
    }
    let mut i: usize = 0;
    while i < 11
        invariant
            i <= 11,
            name@.len() == 11,
            expected@ == constructor_name(),
            forall|j: int| 0 <= j < i ==> name@[j] == expected@[j],
        decreases 11 - i,
    {
        if name[i] != expected[i] {
            return false;
        }
        i = i + 1;
    }
    assert(name@ =~= constructor_name());
    true
}

/// What a call to another actor returned.
#[derive(Debug)]
pub struct Response {
    pub exit_code: u32,
    pub return_data: Option<Vec<u8>>,
}

/// Why a method could not be called by name.
#[derive(Clone, Copy, Debug, PartialEq, Eq)]
pub enum MethodMessengerError {
    /// The name has no method number.
    MethodName(MethodNameErr),
    /// The host refused to send the message.
    Syscall(ErrorNumber),
}

/// What a call by name returns, by the number of the name and by what
/// sending returned: without a number nothing is sent and the error of the
/// name is returned; else the answer of the send, or its error.
pub open spec fn called(
    number: Result<u64, MethodNameErr>,
    sent: Result<Response, ErrorNumber>,
) -> Result<Response, MethodMessengerError> {
    match number {
        Err(e) => Err(MethodMessengerError::MethodName(e)),
        Ok(_) => match sent {
            Ok(response) => Ok(response),
            Err(e) => Err(MethodMessengerError::Syscall(e)),
        },
    }
}

/// Calls methods of other actors by name.
#[derive(Default)]
pub struct MethodMessenger<T: Hasher> {
    pub method_resolver: MethodResolver<T>,
}

impl<T: Hasher> MethodMessenger<T> {
    /// A messenger that derives method numbers with `hasher`.
    pub fn new(hasher: T) -> (r: Self)
        ensures
            r.method_resolver.hasher == hasher,
    {
        MethodMessenger { method_resolver: MethodResolver::new(hasher) }
    }

    /// Calls a method by name: derives its number and hands it to `send`,
    /// which sends the message. A name without a number is an error, and
    /// nothing is sent.
    pub fn call_method<F: FnOnce(u64) -> Result<Response, ErrorNumber>>(
        &self,
        method: &str,
        send: F,
    ) -> (r: Result<Response, MethodMessengerError>)
        requires
            forall|number: u64| call_requires(send, (number,)),
        ensures
            match method_number_of(self.method_resolver.hasher, method.spec_bytes()) {
                Err(e) => r == Err::<Response, MethodMessengerError>(
                    MethodMessengerError::MethodName(e),
                ),
                Ok(number) => exists|sent: Result<Response, ErrorNumber>|
                    call_ensures(send, (number,), sent) && r == #[trigger] called(
                        Ok::<u64, MethodNameErr>(number),
                        sent,
                    ),
            },
    {
        let number = match self.method_resolver.method_number(method) {
            Ok(n) => n,
            Err(e) => {
                return Err(MethodMessengerError::MethodName(e));
            },
        };
        let sent = send(number);
        let ghost copy = sent;
        let r = match sent {
            Ok(response) => Ok(response),
            Err(e) => Err(MethodMessengerError::Syscall(e)),
        };
        assert(r == called(Ok::<u64, MethodNameErr>(number), copy));
        r
    }
}

/// A method name as it is written in source code.
#[derive(Debug)]
pub enum MethodName {
    /// An identifier, such as the name of a function: it names the method
    /// in Pascal case.
    Ident(String),
    /// Text, which names the method as it stands.
    Text(String),
}

/// The Pascal-case form of a name, as bytes: the words of the name, each
/// starting with a capital letter, without delimiters.
pub uninterp spec fn pascal_case(name: Seq<u8>) -> Seq<u8>;

/// Calls `convert_case::Casing::to_case` with `Case::Pascal` and takes
/// the bytes of the string. The contract claims only that the bytes are a
/// function of the name.
#[verifier::external_body]
fn to_pascal_case(name: &str) -> (r: Vec<u8>)
    ensures
        r@ == pascal_case(name.spec_bytes()),
{
    convert_case::Casing::to_case(&name, convert_case::Case::Pascal).into_bytes()
}

impl MethodName {
    /// The bytes of the name that is hashed.
    pub open spec fn hashed_name(&self) -> Seq<u8> {
        match self {
            MethodName::Ident(i) => pascal_case(vstd::utf8::encode_utf8(i@)),
            MethodName::Text(s) => vstd::utf8::encode_utf8(s@),
        }
    }

    /// The method number of the name under BLAKE2b.
    pub fn hash(&self) -> (r: Result<u64, MethodNameErr>)
        ensures
            r == method_number_of(Blake2bHasher {  }, self.hashed_name()),
    {
        let resolver = MethodResolver::new(Blake2bHasher {  });
        match self {
            MethodName::Ident(i) => {
                let name = to_pascal_case(i.as_str());
                resolver.method_number_of_bytes(name.as_slice())
            },
            MethodName::Text(s) => resolver.method_number(s.as_str()),
        }
    }
}

} // verus!

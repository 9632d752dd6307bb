//! Identifiers of conversations and messages: random, and hard to guess.

use vstd::prelude::*;

use rand::distributions::Distribution;
use rand::SeedableRng;

use crate::error::ConfigError;

verus! {

/// How many characters an identifier has.
pub const ID_CHARS: usize = 21;

/// Whether `c` is an ASCII letter or digit.
pub open spec fn is_id_char(c: char) -> bool {
    ('A' <= c && c <= 'Z') || ('a' <= c && c <= 'z') || ('0' <= c && c <= '9')
}

/// Whether `id` has the shape of a generated identifier: 21 ASCII letters
/// and digits.
pub open spec fn is_generated_id(id: Seq<char>) -> bool {
    &&& id.len() == ID_CHARS
    &&& forall|i: int| 0 <= i < id.len() ==> is_id_char(#[trigger] id[i])
}

/// The words of the failure to draw an identifier.
pub open spec fn no_id_words() -> Seq<char> {
    "failed to generate id"@
}

/// `rand::rngs::StdRng`: a generator that, once seeded, draws without
/// asking the system again. Carried through, never looked into.
#[verifier::external_type_specification]
#[verifier::external_body]
pub struct ExStdRng(rand::rngs::StdRng);

/// Calls `rand::SeedableRng::from_rng` for `rand::rngs::StdRng` on
/// `rand::rngs::OsRng`: a generator seeded by the system, or the error of
/// the crate where the system gives no seed. Nothing is known of the seed.
#[verifier::external_body]
fn seeded_generator() -> Result<rand::rngs::StdRng, rand::Error> {
    rand::rngs::StdRng::from_rng(rand::rngs::OsRng)
}

/// Calls `rand::distributions::Distribution::sample` of
/// `rand::distributions::Alphanumeric`: one ASCII letter or digit. Nothing
/// else is known of it.
#[verifier::external_body]
fn draw_id_char(generator: &mut rand::rngs::StdRng) -> (c: char)
    ensures
        is_id_char(c),
{
    char::from(rand::distributions::Alphanumeric.sample(generator))
}

/// Collects characters into a `String` with `Iterator::collect` of std: the
/// text of exactly these characters.
#[verifier::external_body]
fn text_of_chars(chars: &Vec<char>) -> (text: String)
    ensures
        text@ == chars@,
{
    chars.iter().collect()
}

/// Draws an identifier from a generator that the system seeds. Fails with
/// the i/o failure "failed to generate id" where the system gives no seed.
pub fn generate_id() -> (r: Result<String, ConfigError>)
    ensures
        match r {
            Ok(id) => is_generated_id(id@),
            Err(e) => e.is_io(no_id_words()),
        },
{
    let mut generator = match seeded_generator() {
        Ok(generator) => generator,
        Err(_) => {
            return Err(ConfigError::io("failed to generate id"));
        },
    };
    let mut chars: Vec<char> = Vec::new();
    while chars.len() < ID_CHARS
        invariant
            chars@.len() <= ID_CHARS,
            forall|i: int| 0 <= i < chars@.len() ==> is_id_char(#[trigger] chars@[i]),
        decreases ID_CHARS - chars@.len(),
    {
        let c = draw_id_char(&mut generator);
        chars.push(c);
    }
    Ok(text_of_chars(&chars))
}

} // verus!

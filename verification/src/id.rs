//! Plugin identifiers, derived deterministically from a plugin's author
//! and name by hashing each separately and concatenating fixed-length
//! prefixes of the two hex digests.

use vstd::prelude::*;
use vstd::string::*;
use crate::model::PluginMetadata;

verus! {

/// Hex digest that `sha256::digest` computes for the given characters.
/// The digest depends on the input alone, so naming it is sound; its
/// value is not specified here.
pub uninterp spec fn sha256_hex(s: Seq<char>) -> Seq<char>;

/// Relies on `sha256::digest` (through `hex::encode`): the result is the
/// SHA-256 digest of the input's bytes as 64 lowercase hex digits, and it
/// depends on the input characters alone.
#[verifier::external_body]
fn sha256_digest(s: &str) -> (r: String)
    ensures
        r@ == sha256_hex(s@),
        r@.len() == 64,
{
    sha256::digest(s)
}

/// Identifier derived from an (author, name) pair: the first 6 digest
/// characters of the author concatenated with the first 18 of the name.
pub open spec fn spec_plugin_id(author: Seq<char>, name: Seq<char>) -> Seq<char> {
    sha256_hex(author).subrange(0, 6) + sha256_hex(name).subrange(0, 18)
}

/// Opaque identifier of one plugin; the sole key of the registry.
pub struct PluginId(pub String);

impl View for PluginId {
    type V = Seq<char>;

    open spec fn view(&self) -> Seq<char> {
        self.0@
    }
}

impl PluginId {
    /// Derive the id of the plugin that the metadata describes.
    pub fn new(meta: &PluginMetadata) -> (r: Self)
        ensures
            r@ == spec_plugin_id(meta@.author, meta@.name),
            r@.len() == 24,
    {
        let author_digest = sha256_digest(meta.author.as_str());
        let name_digest = sha256_digest(meta.name.as_str());
        let author_part = author_digest.as_str().substring_char(0, 6);
        let name_part = name_digest.as_str().substring_char(0, 18);
        let mut id = author_part.to_owned();
        id.append(name_part);
        PluginId(id)
    }

    /// The raw text of the id.
    pub fn as_str(&self) -> (r: &str)
        ensures
            r@ == self@,
    {
        self.0.as_str()
    }
}

impl From<String> for PluginId {
    /// Wrap raw text (for example an id received over the wire) as an id.
    fn from(s: String) -> (r: Self) {
        PluginId(s)
    }
}

impl vstd::std_specs::convert::FromSpecImpl<String> for PluginId {
    open spec fn obeys_from_spec() -> bool {
        true
    }

    open spec fn from_spec(s: String) -> PluginId {
        PluginId(s)
    }
}

impl PartialEq for PluginId {
    fn eq(&self, other: &Self) -> (r: bool) {
        self.0 == other.0
    }
}

impl Eq for PluginId {}

impl vstd::std_specs::cmp::PartialEqSpecImpl for PluginId {
    open spec fn obeys_eq_spec() -> bool {
        true
    }

    open spec fn eq_spec(&self, other: &PluginId) -> bool {
        self.0@ == other.0@
    }
}

impl Clone for PluginId {
    fn clone(&self) -> (res: Self)
        ensures
            res@ == self@,
    {
        PluginId(self.0.clone())
    }
}

/// Id derivation is injective up to digest-prefix collisions: two
/// pairs receive the same id only when both the author-digest prefixes
/// and the name-digest prefixes coincide — which, for a cryptographic
/// hash, happens with negligible probability for distinct inputs. The
/// 64-digit length of the digests is a hypothesis here; the digest
/// wrapper ensures it of every digest it returns.
pub proof fn lemma_plugin_id_prefix_injective(
    author1: Seq<char>,
    name1: Seq<char>,
    author2: Seq<char>,
    name2: Seq<char>,
)
    requires
        sha256_hex(author1).len() == 64,
        sha256_hex(author2).len() == 64,
        sha256_hex(name1).len() == 64,
        sha256_hex(name2).len() == 64,
        spec_plugin_id(author1, name1) == spec_plugin_id(author2, name2),
    ensures
        sha256_hex(author1).subrange(0, 6) == sha256_hex(author2).subrange(0, 6),
        sha256_hex(name1).subrange(0, 18) == sha256_hex(name2).subrange(0, 18),
{
    let a1 = sha256_hex(author1).subrange(0, 6);
    let a2 = sha256_hex(author2).subrange(0, 6);
    let n1 = sha256_hex(name1).subrange(0, 18);
    let n2 = sha256_hex(name2).subrange(0, 18);
    assert(a1 =~= (a1 + n1).subrange(0, 6));
    assert(a2 =~= (a2 + n2).subrange(0, 6));
    assert(n1 =~= (a1 + n1).subrange(6, 24));
    assert(n2 =~= (a2 + n2).subrange(6, 24));
}

/// Deriving an id is deterministic: equal (author, name) pairs always
/// yield equal ids, across repeated runs and process restarts.
pub proof fn lemma_plugin_id_deterministic(
    author1: Seq<char>,
    name1: Seq<char>,
    author2: Seq<char>,
    name2: Seq<char>,
)
    requires
        author1 == author2,
        name1 == name2,
    ensures
        spec_plugin_id(author1, name1) == spec_plugin_id(author2, name2),
{
}

} // verus!

//! The structured text that a plan file holds.

use vstd::prelude::*;
use yaml_rust::ScanError;
use yaml_rust::Yaml;
use yaml_rust::YamlLoader;

verus! {

/// `yaml_rust::Yaml`, a node as the parser holds it.
#[verifier::external_type_specification]
#[verifier::external_body]
pub struct ExYaml(Yaml);

/// `yaml_rust::ScanError`, carried through as the parser made it.
#[verifier::external_type_specification]
#[verifier::external_body]
pub struct ExScanError(ScanError);

/// One node of a document.
#[derive(Debug)]
pub enum Node {
    /// A number with a fraction, kept as written.
    Real(String),
    Integer(i64),
    /// A string scalar.
    Text(String),
    Boolean(bool),
    Sequence(Vec<Node>),
    /// Key and value pairs, in the order of the text. A lookup takes the first
    /// pair with the key.
    Mapping(Vec<(Node, Node)>),
    Alias(usize),
    Null,
    /// What a lookup answers that found nothing.
    BadValue,
}

/// The documents that `yaml_rust` reads from `text`, or `None` where it rejects the text.
pub uninterp spec fn yaml_documents(text: Seq<char>) -> Option<Seq<Node>>;

/// Copies a node of `yaml_rust` into a `Node`, variant for variant and member
/// for member; the pairs of a mapping come in the order in which the parser holds them.
/// Trusted, and used by `load_documents` alone.
#[verifier::external_body]
fn node_of(yaml: &Yaml) -> Node {
    match yaml {
        Yaml::Real(s) => Node::Real(s.clone()),
        Yaml::Integer(i) => Node::Integer(*i),
        Yaml::String(s) => Node::Text(s.clone()),
        Yaml::Boolean(b) => Node::Boolean(*b),
        Yaml::Array(v) => Node::Sequence(v.iter().map(node_of).collect()),
        Yaml::Hash(h) => Node::Mapping(h.iter().map(|(k, v)| (node_of(k), node_of(v))).collect()),
        Yaml::Alias(n) => Node::Alias(*n),
        Yaml::Null => Node::Null,
        Yaml::BadValue => Node::BadValue,
    }
}

/// `YamlLoader::load_from_str`, each document copied by `node_of`.
/// Trusted: the answer is `yaml_documents`.
#[verifier::external_body]
fn load_documents(text: &str) -> (loaded: Result<Vec<Node>, ScanError>)
    ensures
        match loaded {
            Ok(documents) => yaml_documents(text@) == Some(documents@),
            Err(_) => yaml_documents(text@) is None,
        },
{
    match YamlLoader::load_from_str(text) {
        Ok(documents) => Ok(documents.iter().map(node_of).collect()),
        Err(e) => Err(e),
    }
}

/// The position of the first pair of `pairs` whose key is the string `key`,
/// or the length of `pairs` where no pair has that key.
pub open spec fn key_position(pairs: Seq<(Node, Node)>, key: Seq<char>) -> int
    decreases pairs.len(),
{
    if pairs.len() == 0 {
        0
    } else if pairs[0].0.text() == Some(key) {
        0
    } else {
        1 + key_position(pairs.drop_first(), key)
    }
}

/// `key_position` names a pair with the key, and no pair before it has the key.
pub proof fn lemma_key_position(pairs: Seq<(Node, Node)>, key: Seq<char>)
    ensures
        0 <= key_position(pairs, key) <= pairs.len(),
        key_position(pairs, key) < pairs.len() ==> pairs[key_position(pairs, key)].0.text()
            == Some(key),
        forall|i: int|
            0 <= i < key_position(pairs, key) ==> (#[trigger] pairs[i]).0.text() != Some(key),
    decreases pairs.len(),
{
    if pairs.len() > 0 && pairs[0].0.text() != Some(key) {
        lemma_key_position(pairs.drop_first(), key);
        assert forall|i: int| 0 <= i < key_position(pairs, key) implies (#[trigger] pairs[i]).0.text()
            != Some(key) by {
            if i > 0 {
                assert(pairs[i] == pairs.drop_first()[i - 1]);
            }
        }
    }
}

/// A pair with the key, before which no pair has the key, is where `key_position` points.
pub proof fn lemma_key_position_is(pairs: Seq<(Node, Node)>, key: Seq<char>, k: int)
    requires
        0 <= k <= pairs.len(),
        k < pairs.len() ==> pairs[k].0.text() == Some(key),
        forall|i: int| 0 <= i < k ==> (#[trigger] pairs[i]).0.text() != Some(key),
    ensures
        key_position(pairs, key) == k,
{
    lemma_key_position(pairs, key);
}

impl Node {
    /// The characters of a string scalar; `None` for any other node.
    pub open spec fn text(&self) -> Option<Seq<char>> {
        match self {
            Node::Text(s) => Some(s@),
            _ => None,
        }
    }

    /// The members of a sequence; `None` for any other node.
    pub open spec fn items(&self) -> Option<Seq<Node>> {
        match self {
            Node::Sequence(v) => Some(v@),
            _ => None,
        }
    }

    /// The value that a mapping holds under the string `key`; `None` where the
    /// node is no mapping or has no such key.
    pub open spec fn entry(&self, key: Seq<char>) -> Option<Node> {
        match self {
            Node::Mapping(pairs) => if key_position(pairs@, key) < pairs@.len() {
                Some(pairs@[key_position(pairs@, key)].1)
            } else {
                None
            },
            _ => None,
        }
    }

    /// The string that a mapping holds under the string `key`; `None` where
    /// there is no such key or its value is no string scalar.
    pub open spec fn field(&self, key: Seq<char>) -> Option<Seq<char>> {
        match self.entry(key) {
            Some(value) => value.text(),
            None => None,
        }
    }

    /// The characters of a string scalar.
    pub fn as_str(&self) -> (text: Option<&str>)
        ensures
            match text {
                Some(s) => self.text() == Some(s@),
                None => self.text() is None,
            },
    {
        match self {
            Node::Text(s) => Some(s.as_str()),
            _ => None,
        }
    }

    /// The members of a sequence.
    pub fn as_vec(&self) -> (items: Option<&Vec<Node>>)
        ensures
            match items {
                Some(v) => self.items() == Some(v@),
                None => self.items() is None,
            },
    {
        match self {
            Node::Sequence(v) => Some(v),
            _ => None,
        }
    }

    /// The value that a mapping holds under the string `key`.
    pub fn get(&self, key: &str) -> (value: Option<&Node>)
        ensures
            match value {
                Some(node) => self.entry(key@) == Some(*node),
                None => self.entry(key@) is None,
            },
    {
        match self {
            Node::Mapping(pairs) => {
                let mut i: usize = 0;
                while i < pairs.len()
                    invariant
                        i <= pairs.len(),
                        *self == Node::Mapping(*pairs),
                        forall|j: int| 0 <= j < i ==> (#[trigger] pairs@[j]).0.text() != Some(key@),
                    decreases pairs.len() - i,
                {
                    let found = match &pairs[i].0 {
                        Node::Text(name) => crate::text::same_text(name.as_str(), key),
                        _ => false,
                    };
                    if found {
                        proof {
                            lemma_key_position_is(pairs@, key@, i as int);
                        }
                        return Some(&pairs[i].1);
                    }
                    i += 1;
                }
                proof {
                    lemma_key_position_is(pairs@, key@, pairs@.len() as int);
                }
                None
            },
            _ => None,
        }
    }

    /// The string that a mapping holds under the string `key`.
    pub fn get_str(&self, key: &str) -> (text: Option<&str>)
        ensures
            match text {
                Some(s) => self.field(key@) == Some(s@),
                None => self.field(key@) is None,
            },
    {
        match self.get(key) {
            Some(value) => value.as_str(),
            None => None,
        }
    }
}

/// Reads the documents that a text holds.
pub fn parse_documents(text: &str) -> (documents: Result<Vec<Node>, ScanError>)
    ensures
        match documents {
            Ok(d) => yaml_documents(text@) == Some(d@),
            Err(_) => yaml_documents(text@) is None,
        },
{
    load_documents(text)
}

} // verus!

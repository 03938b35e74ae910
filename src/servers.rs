use crate::discord::DiscordServer;
use crate::invites::{parse_url, url_serialization, MalformedInput};
use vstd::prelude::*;

verus! {

/// A node of a loaded YAML document: its text as the loader writes it out,
/// and its shape.
#[derive(Debug)]
pub struct YamlNode {
    pub text: String,
    pub kind: YamlKind,
}

/// The shape of a YAML node.
#[derive(Debug)]
pub enum YamlKind {
    /// A string scalar and its characters.
    Str(String),
    /// A sequence of nodes.
    Sequence(Vec<YamlNode>),
    /// A mapping, as its key and value pairs in document order.
    Mapping(Vec<(YamlNode, YamlNode)>),
    /// Any other scalar: null, boolean or number.
    Scalar,
}

/// The document that `rust_yaml::Yaml::load_str` reads from a text, or
/// `None` when it reports an error.
pub uninterp spec fn yaml_doc(text: Seq<char>) -> Option<YamlNode>;

#[verifier::external_type_specification]
#[verifier::external_body]
pub struct ExYamlValue(rust_yaml::Value);

/// Relies on the `Display` impl of `rust_yaml::Value` for the text of each
/// node, and on its variants for the shape; converts one for one.
#[verifier::external_body]
fn yaml_node(v: &rust_yaml::Value) -> (r: YamlNode) {
    let kind = match v {
        rust_yaml::Value::String(s) => YamlKind::Str(s.clone()),
        rust_yaml::Value::Sequence(items) => YamlKind::Sequence(items.iter().map(yaml_node).collect()),
        rust_yaml::Value::Mapping(m) => YamlKind::Mapping(
            m.iter().map(|(k, x)| (yaml_node(k), yaml_node(x))).collect(),
        ),
        _ => YamlKind::Scalar,
    };
    YamlNode { text: v.to_string(), kind }
}

/// Relies on `rust_yaml::Yaml::load_str`, the default loader reading one
/// document; the result depends on the text alone. A load error is kept as
/// its message.
#[verifier::external_body]
fn load_yaml(text: &str) -> (r: Result<YamlNode, String>)
    ensures
        match r {
            Ok(d) => yaml_doc(text@) == Some(d),
            Err(_) => yaml_doc(text@) is None,
        },
{
    rust_yaml::Yaml::new().load_str(text).map(|v| yaml_node(&v)).map_err(|e| e.to_string())
}

/// Whether a node is the string scalar `key`.
pub open spec fn is_key(n: YamlNode, key: Seq<char>) -> bool {
    n.kind matches YamlKind::Str(s) && s@ == key
}

/// The value under `key` among mapping pairs: the first pair whose key is
/// that string.
pub open spec fn lookup(pairs: Seq<(YamlNode, YamlNode)>, key: Seq<char>) -> Option<YamlNode>
    decreases pairs.len(),
{
    if pairs.len() == 0 {
        None
    } else if is_key(pairs[0].0, key) {
        Some(pairs[0].1)
    } else {
        lookup(pairs.drop_first(), key)
    }
}

/// The value of a mapping node under `key`; nothing for other nodes.
pub open spec fn field(n: YamlNode, key: Seq<char>) -> Option<YamlNode> {
    match n.kind {
        YamlKind::Mapping(pairs) => lookup(pairs@, key),
        _ => None,
    }
}

/// The entries of the `servers` sequence of a document, if it has one.
pub open spec fn server_entries(d: YamlNode) -> Option<Seq<YamlNode>> {
    match field(d, "servers"@) {
        Some(n) => match n.kind {
            YamlKind::Sequence(items) => Some(items@),
            _ => None,
        },
        None => None,
    }
}

/// The name text and the link of one entry, when it has a `name` and a
/// string `invite_url`.
pub open spec fn entry_fields(e: YamlNode) -> Option<(Seq<char>, Seq<char>)> {
    match (field(e, "name"@), field(e, "invite_url"@)) {
        (Some(n), Some(u)) => match u.kind {
            YamlKind::Str(link) => Some((n.text@, link@)),
            _ => None,
        },
        _ => None,
    }
}

/// Whether an entry yields a server: both fields are there and the link
/// parses as an absolute URL.
pub open spec fn entry_valid(e: YamlNode) -> bool {
    entry_fields(e) matches Some(f) && url_serialization(f.1) is Some
}

/// Whether `s` is the server that entry `e` describes.
pub open spec fn server_of_entry(e: YamlNode, s: DiscordServer) -> bool {
    entry_fields(e) matches Some(f) && s.name@ == f.0 && url_serialization(f.1) == Some(
        s.invite_url@,
    )
}

/// What an invalid entry is reported as: its link when it has one, else
/// the entry's own text.
pub open spec fn rejected_input(e: YamlNode) -> Seq<char> {
    match entry_fields(e) {
        Some(f) => f.1,
        None => e.text@,
    }
}

/// Whether every entry yields a server.
pub open spec fn all_valid(es: Seq<YamlNode>) -> bool {
    forall|i: int| 0 <= i < es.len() ==> entry_valid(#[trigger] es[i])
}

/// Whether entry `j` is the first that yields no server.
pub open spec fn first_invalid(es: Seq<YamlNode>, j: int) -> bool {
    &&& 0 <= j < es.len()
    &&& !entry_valid(es[j])
    &&& forall|k: int| 0 <= k < j ==> entry_valid(#[trigger] es[k])
}

/// Whether `v` holds the servers of the entries `es`, one each, in order.
pub open spec fn servers_listed(es: Seq<YamlNode>, v: Seq<DiscordServer>) -> bool {
    v.len() == es.len() && forall|i: int| 0 <= i < es.len() ==> server_of_entry(es[i], #[trigger] v[i])
}

/// Why a servers document could not be read.
#[derive(Debug, Clone, PartialEq, Eq)]
pub enum ServersFileError {
    /// The text is not a YAML document; the loader's message.
    Yaml(String),
    /// An entry lacks its `name` or string `invite_url`, or its invite link
    /// is not an absolute URL.
    Entry(MalformedInput),
}

fn find_field(pairs: &Vec<(YamlNode, YamlNode)>, key: &String) -> (r: Option<usize>)
    ensures
        match r {
            Some(i) => i < pairs@.len() && lookup(pairs@, key@) == Some(pairs@[i as int].1),
            None => lookup(pairs@, key@) is None,
        },
{
    let mut i: usize = 0;
    assert(pairs@.subrange(0, pairs@.len() as int) =~= pairs@);
    while i < pairs.len()
        invariant
            i <= pairs@.len(),
            lookup(pairs@, key@) == lookup(pairs@.subrange(i as int, pairs@.len() as int), key@),
        decreases pairs@.len() - i,
    {
        let ghost rest = pairs@.subrange(i as int, pairs@.len() as int);
        assert(rest.drop_first() =~= pairs@.subrange(i + 1, pairs@.len() as int));
        assert(rest[0] == pairs@[i as int]);
        let hit = match &pairs[i].0.kind {
            YamlKind::Str(s) => s.eq(key),
            _ => false,
        };
        assert(hit == is_key(rest[0].0, key@));
        if hit {
            return Some(i);
        }
        i = i + 1;
    }
    assert(pairs@.subrange(i as int, pairs@.len() as int).len() == 0);
    None
}

fn get_field<'a>(n: &'a YamlNode, key: &String) -> (r: Option<&'a YamlNode>)
    ensures
        match r {
            Some(x) => field(*n, key@) == Some(*x),
            None => field(*n, key@) is None,
        },
{
    match &n.kind {
        YamlKind::Mapping(pairs) => match find_field(pairs, key) {
            Some(i) => Some(&pairs[i].1),
            None => None,
        },
        _ => None,
    }
}

fn malformed_entry(e: &YamlNode) -> (r: Result<DiscordServer, MalformedInput>)
    ensures
        match r {
            Ok(s) => entry_valid(*e) && server_of_entry(*e, s),
            Err(m) => !entry_valid(*e) && m.input@ == rejected_input(*e),
        },
{
    let name = get_field(e, &"name".to_owned());
    let link = get_field(e, &"invite_url".to_owned());
    match (name, link) {
        (Some(n), Some(u)) => match &u.kind {
            YamlKind::Str(l) => match parse_url(l.as_str()) {
                Some(invite_url) => Ok(DiscordServer { name: n.text.clone(), invite_url }),
                None => Err(MalformedInput { input: l.clone(), reason: "not an absolute URL".to_owned() }),
            },
            _ => Err(
                MalformedInput { input: e.text.clone(), reason: "invite_url is not a string".to_owned() },
            ),
        },
        _ => Err(
            MalformedInput { input: e.text.clone(), reason: "missing name or invite_url".to_owned() },
        ),
    }
}

/// Reads the servers listed in a YAML document: the sequence under
/// `servers`, each entry with a `name` (kept as the loader writes it out)
/// and a string `invite_url` (kept as the parsed URL's serialization), in
/// document order. A document without such a sequence lists no server. The
/// first entry that lacks a field, or whose link does not parse, fails the
/// whole document.
pub fn servers_from_yaml(content: &str) -> (r: Result<Vec<DiscordServer>, ServersFileError>)
    ensures
        (r matches Err(ServersFileError::Yaml(_))) <==> yaml_doc(content@) is None,
        yaml_doc(content@) matches Some(d) ==> match server_entries(d) {
            None => r matches Ok(v) && v@.len() == 0,
            Some(es) => if all_valid(es) {
                r matches Ok(v) && servers_listed(es, v@)
            } else {
                r matches Err(ServersFileError::Entry(m)) && exists|j: int|
                    #[trigger] first_invalid(es, j) && m.input@ == rejected_input(es[j])
            },
        },
{
    let loaded = load_yaml(content);
    let doc = match loaded {
        Ok(d) => d,
        Err(msg) => {
            return Err(ServersFileError::Yaml(msg));
        },
    };
    assert(yaml_doc(content@) == Some(doc));
    let entries = match get_field(&doc, &"servers".to_owned()) {
        Some(v) => match &v.kind {
            YamlKind::Sequence(items) => items,
            _ => {
                return Ok(Vec::new());
            },
        },
        None => {
            return Ok(Vec::new());
        },
    };
    assert(server_entries(doc) == Some(entries@));
    let mut servers: Vec<DiscordServer> = Vec::new();
    let mut i: usize = 0;
    while i < entries.len()
        invariant
            yaml_doc(content@) == Some(doc),
            server_entries(doc) == Some(entries@),
            i <= entries@.len(),
            servers@.len() == i,
            forall|k: int| 0 <= k < i ==> entry_valid(#[trigger] entries@[k]),
            forall|k: int| 0 <= k < i ==> server_of_entry(entries@[k], #[trigger] servers@[k]),
        decreases entries@.len() - i,
    {
        match malformed_entry(&entries[i]) {
            Ok(s) => servers.push(s),
            Err(m) => {
                let ghost es = entries@;
                let ghost j = i as int;
                assert(first_invalid(es, j));
                return Err(ServersFileError::Entry(m));
            },
        }
        i = i + 1;
    }
    Ok(servers)
}

} // verus!

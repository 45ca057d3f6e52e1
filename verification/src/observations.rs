//! Two-tier observation archive: full tool outputs are stored out-of-band
//! under a UUID key, and the compact context carries only the key.
//!
//! The identifier is the only defense against path traversal: it is
//! validated as UUID syntax before any file name is derived from it.

use vstd::prelude::*;

verus! {

use crate::error::McpError;
use crate::jsontext::{
    enc_string,
    is_digit,
    sp_expect,
    sp_string,
    lemma_expect_inv,
    lemma_string_inv,
    encode_string_into,
    expect_lit,
    parse_string,
};
use crate::strutil::has_dotdot;

/// Whether the character may occur in the hexadecimal part of a UUID.
pub open spec fn is_uuid_hex(c: char) -> bool {
    is_digit(c) || ('a' <= c && c <= 'f') || ('A' <= c && c <= 'F')
}

/// What the character at position `i` of a hyphenated UUID must be.
pub open spec fn uuid_char_ok(s: Seq<char>, i: int) -> bool {
    if i == 8 || i == 13 || i == 18 || i == 23 {
        s[i] == '-'
    } else {
        is_uuid_hex(s[i])
    }
}

/// UUID syntax: 36 characters, hyphens at the four fixed positions, and
/// hexadecimal digits everywhere else.
pub open spec fn uuid_syntax(s: Seq<char>) -> bool {
    s.len() == 36 && forall|i: int| 0 <= i < 36 ==> #[trigger] uuid_char_ok(s, i)
}

/// A string of UUID syntax holds no path separator and no `..` segment, so
/// a validated identifier can never name a path outside the archive.
pub proof fn lemma_uuid_no_traversal(s: Seq<char>)
    requires
        uuid_syntax(s),
    ensures
        !s.contains('/'),
        !s.contains('\\'),
        !has_dotdot(s),
{
    assert forall|i: int| 0 <= i < s.len() implies s[i] != '/' && s[i] != '\\' && s[i]
        != '.' by {
        assert(uuid_char_ok(s, i));
    }
    if s.contains('/') {
        let i = choose|i: int| 0 <= i < s.len() && s[i] == '/';
        assert(false);
    }
    if s.contains('\\') {
        let i = choose|i: int| 0 <= i < s.len() && s[i] == '\\';
        assert(false);
    }
}

/// A string holding a path separator or a `..` segment always fails UUID
/// syntax, so retrieval rejects it before any file access.
pub proof fn lemma_traversal_fails_uuid_syntax(s: Seq<char>)
    requires
        s.contains('/') || s.contains('\\') || has_dotdot(s),
    ensures
        !uuid_syntax(s),
{
    if uuid_syntax(s) {
        lemma_uuid_no_traversal(s);
    }
}

/// Whether the character may occur in the hexadecimal part of a UUID, as
/// executable code.
fn uuid_hex_check(c: char) -> (r: bool)
    ensures
        r == is_uuid_hex(c),
{
    let u = c as u32;
    crate::jsontext::digit_check(c) || (('a' as u32) <= u && u <= ('f' as u32)) || (('A' as u32)
        <= u && u <= ('F' as u32))
}

/// Whether the string is syntactically a hyphenated UUID.
pub fn is_valid_observation_id(s: &str) -> (r: bool)
    ensures
        r == uuid_syntax(s@),
{
    let chars = crate::strutil::chars_of(s);
    if chars.len() != 36 {
        return false;
    }
    let mut i: usize = 0;
    while i < 36
        invariant
            i <= 36,
            chars@ == s@,
            s@.len() == 36,
            forall|k: int| 0 <= k < i ==> #[trigger] uuid_char_ok(s@, k),
        decreases 36 - i,
    {
        let c = chars[i];
        proof {
            assert(c == s@[i as int]);
        }
        if i == 8 || i == 13 || i == 18 || i == 23 {
            if c != '-' {
                proof {
                    assert(!uuid_char_ok(s@, i as int));
                }
                return false;
            }
        } else {
            if !uuid_hex_check(c) {
                proof {
                    assert(!uuid_char_ok(s@, i as int));
                }
                return false;
            }
        }
        i = i + 1;
    }
    true
}

// ============================================================================
// The record document
// ============================================================================

/// The identity half of a record document.
#[verifier::opaque]
pub open spec fn rec_w_head(id: Seq<char>, tool: Seq<char>) -> Seq<char> {
    "{\"obs_id\":"@ + enc_string(id) + ",\"tool\":"@ + enc_string(tool)
}

/// The payload half of a record document.
#[verifier::opaque]
pub open spec fn rec_w_tail(created: Seq<char>, content: Seq<char>) -> Seq<char> {
    ",\"created_at\":"@ + enc_string(created) + ",\"content\":"@ + enc_string(content) + "}"@
}

/// The document form of an observation record.
pub open spec fn enc_record(
    id: Seq<char>,
    tool: Seq<char>,
    created: Seq<char>,
    content: Seq<char>,
) -> Seq<char> {
    rec_w_head(id, tool) + rec_w_tail(created, content)
}

/// Parses the identity half of a record document.
pub open spec fn sp_record_head(t: Seq<char>, i: int) -> Option<((Seq<char>, Seq<char>), int)> {
    match sp_expect(t, i, "{\"obs_id\":"@) {
        Some(j1) => match sp_string(t, j1) {
            Some((id, j2)) => match sp_expect(t, j2, ",\"tool\":"@) {
                Some(j3) => match sp_string(t, j3) {
                    Some((tool, j4)) => Some(((id, tool), j4)),
                    None => None,
                },
                None => None,
            },
            None => None,
        },
        None => None,
    }
}

/// Parses the payload half of a record document.
pub open spec fn sp_record_tail(t: Seq<char>, i: int) -> Option<((Seq<char>, Seq<char>), int)> {
    match sp_expect(t, i, ",\"created_at\":"@) {
        Some(j1) => match sp_string(t, j1) {
            Some((created, j2)) => match sp_expect(t, j2, ",\"content\":"@) {
                Some(j3) => match sp_string(t, j3) {
                    Some((content, j4)) => match sp_expect(t, j4, "}"@) {
                        Some(j5) => Some(((created, content), j5)),
                        None => None,
                    },
                    None => None,
                },
                None => None,
            },
            None => None,
        },
        None => None,
    }
}

/// Parses a whole record document: identity, payload, and full consumption.
pub open spec fn sp_record_doc(t: Seq<char>) -> Option<
    (Seq<char>, Seq<char>, Seq<char>, Seq<char>),
> {
    match sp_record_head(t, 0) {
        Some(((id, tool), j1)) => match sp_record_tail(t, j1) {
            Some(((created, content), j2)) => if j2 == t.len() {
                Some((id, tool, created, content))
            } else {
                None
            },
            None => None,
        },
        None => None,
    }
}

/// Reading back the identity half.
#[verifier::spinoff_prover]
#[verifier::rlimit(100)]
proof fn lemma_record_head_inv(id: Seq<char>, tool: Seq<char>, rest: Seq<char>)
    ensures
        sp_record_head(rec_w_head(id, tool) + rest, 0) == Some(
            ((id, tool), rec_w_head(id, tool).len() as int),
        ),
{
    let t = rec_w_head(id, tool) + rest;
    let e = Seq::<char>::empty();
    let r1 = enc_string(id) + (",\"tool\":"@ + enc_string(tool) + rest);
    assert(t =~= e + "{\"obs_id\":"@ + r1) by {
        reveal(rec_w_head);
    }
    lemma_expect_inv(e, "{\"obs_id\":"@, r1);
    let p1 = e + "{\"obs_id\":"@;
    let r2 = ",\"tool\":"@ + enc_string(tool) + rest;
    assert(t =~= p1 + enc_string(id) + r2) by {
        reveal(rec_w_head);
    }
    lemma_string_inv(p1, id, r2);
    let p2 = p1 + enc_string(id);
    let r3 = enc_string(tool) + rest;
    assert(t =~= p2 + ",\"tool\":"@ + r3) by {
        reveal(rec_w_head);
    }
    lemma_expect_inv(p2, ",\"tool\":"@, r3);
    let p3 = p2 + ",\"tool\":"@;
    assert(t =~= p3 + enc_string(tool) + rest) by {
        reveal(rec_w_head);
    }
    lemma_string_inv(p3, tool, rest);
    assert(rec_w_head(id, tool).len() == "{\"obs_id\":"@.len() + enc_string(id).len()
        + ",\"tool\":"@.len() + enc_string(tool).len()) by {
        reveal(rec_w_head);
    }
}

/// Reading back the payload half.
#[verifier::spinoff_prover]
#[verifier::rlimit(100)]
proof fn lemma_record_tail_inv(pre: Seq<char>, created: Seq<char>, content: Seq<char>)
    ensures
        sp_record_tail(pre + rec_w_tail(created, content), pre.len() as int) == Some(
            ((created, content), pre.len() + rec_w_tail(created, content).len() as int),
        ),
{
    reveal_strlit("}");
    let t = pre + rec_w_tail(created, content);
    let e = Seq::<char>::empty();
    let r1 = enc_string(created) + (",\"content\":"@ + enc_string(content) + "}"@ + e);
    assert(t =~= pre + ",\"created_at\":"@ + r1) by {
        reveal(rec_w_tail);
    }
    lemma_expect_inv(pre, ",\"created_at\":"@, r1);
    let p1 = pre + ",\"created_at\":"@;
    let r2 = ",\"content\":"@ + enc_string(content) + "}"@ + e;
    assert(t =~= p1 + enc_string(created) + r2) by {
        reveal(rec_w_tail);
    }
    lemma_string_inv(p1, created, r2);
    let p2 = p1 + enc_string(created);
    let r3 = enc_string(content) + ("}"@ + e);
    assert(t =~= p2 + ",\"content\":"@ + r3) by {
        reveal(rec_w_tail);
    }
    lemma_expect_inv(p2, ",\"content\":"@, r3);
    let p3 = p2 + ",\"content\":"@;
    let r4 = "}"@ + e;
    assert(t =~= p3 + enc_string(content) + r4) by {
        reveal(rec_w_tail);
    }
    lemma_string_inv(p3, content, r4);
    let p4 = p3 + enc_string(content);
    assert(t =~= p4 + "}"@ + e) by {
        reveal(rec_w_tail);
    }
    lemma_expect_inv(p4, "}"@, e);
    assert(rec_w_tail(created, content).len() == ",\"created_at\":"@.len() + enc_string(
        created,
    ).len() + ",\"content\":"@.len() + enc_string(content).len() + "}"@.len()) by {
        reveal(rec_w_tail);
    }
}

/// The round trip: parsing a rendered record document yields exactly the
/// fields that were rendered; in particular the archived content comes back
/// unchanged.
pub proof fn lemma_record_round_trip(
    id: Seq<char>,
    tool: Seq<char>,
    created: Seq<char>,
    content: Seq<char>,
)
    ensures
        sp_record_doc(enc_record(id, tool, created, content)) == Some(
            (id, tool, created, content),
        ),
{
    let t = enc_record(id, tool, created, content);
    lemma_record_head_inv(id, tool, rec_w_tail(created, content));
    lemma_record_tail_inv(rec_w_head(id, tool), created, content);
    assert(t.len() == rec_w_head(id, tool).len() + rec_w_tail(created, content).len());
}

/// Renders a record document.
fn encode_record(id: &str, tool: &str, created: &str, content: &str) -> (r: String)
    ensures
        r@ == enc_record(id@, tool@, created@, content@),
{
    let mut out = String::new();
    out.append("{\"obs_id\":");
    encode_string_into(&mut out, id);
    out.append(",\"tool\":");
    encode_string_into(&mut out, tool);
    out.append(",\"created_at\":");
    encode_string_into(&mut out, created);
    out.append(",\"content\":");
    encode_string_into(&mut out, content);
    out.append("}");
    proof {
        reveal(rec_w_head);
        reveal(rec_w_tail);
        assert(out@ =~= enc_record(id@, tool@, created@, content@));
    }
    out
}

/// Parses a record document, yielding its id, tool, creation time, and
/// content.
fn parse_record(t: &Vec<char>) -> (r: Option<(String, String, String, String)>)
    ensures
        match r {
            Some((id, tool, created, content)) => sp_record_doc(t@) == Some(
                (id@, tool@, created@, content@),
            ),
            None => sp_record_doc(t@) is None,
        },
{
    let j1 = match expect_lit(t, 0, "{\"obs_id\":") {
        Some(j) => j,
        None => {
            return None;
        },
    };
    let (id, j2) = match parse_string(t, j1) {
        Some(r) => r,
        None => {
            return None;
        },
    };
    let j3 = match expect_lit(t, j2, ",\"tool\":") {
        Some(j) => j,
        None => {
            return None;
        },
    };
    let (tool, j4) = match parse_string(t, j3) {
        Some(r) => r,
        None => {
            return None;
        },
    };
    let j5 = match expect_lit(t, j4, ",\"created_at\":") {
        Some(j) => j,
        None => {
            return None;
        },
    };
    let (created, j6) = match parse_string(t, j5) {
        Some(r) => r,
        None => {
            return None;
        },
    };
    let j7 = match expect_lit(t, j6, ",\"content\":") {
        Some(j) => j,
        None => {
            return None;
        },
    };
    let (content, j8) = match parse_string(t, j7) {
        Some(r) => r,
        None => {
            return None;
        },
    };
    let j9 = match expect_lit(t, j8, "}") {
        Some(j) => j,
        None => {
            return None;
        },
    };
    if j9 != t.len() {
        return None;
    }
    Some((id, tool, created, content))
}

// ============================================================================
// The store
// ============================================================================

/// Relies on uuid's `Uuid::new_v4` and its `Display` impl: a fresh random
/// version-4 UUID rendered in the hyphenated lowercase form, 36 characters.
/// Nothing more is assumed of the random value.
#[verifier::external_body]
fn new_observation_id() -> (r: String)
    ensures
        uuid_syntax(r@),
{
    uuid::Uuid::new_v4().to_string()
}

/// UUID-keyed storage for full tool outputs.
///
/// Full outputs are archived under a fresh UUID; the active context carries
/// only the identifier, and the output is retrieved on demand. The store
/// itself computes names and record documents; reading and writing the
/// archive directory is its caller's part.
pub struct ObservationStore {
    /// The archive directory the caller reads and writes under.
    pub cache_dir: String,
}

impl ObservationStore {
    /// A store rooted at the given archive directory.
    pub fn new(cache_dir: String) -> (r: Self)
        ensures
            r.cache_dir@ == cache_dir@,
    {
        ObservationStore { cache_dir }
    }

    /// Archives a full tool output: a fresh observation id, the file name
    /// derived from it, and the record document to write under that name.
    /// The record holds the id, the tool name, a creation timestamp, and the
    /// full output unchanged.
    pub fn save(&self, tool_name: &str, full_output: &str) -> (r: (String, String, String))
        ensures
            uuid_syntax(r.0@),
            r.1@ == r.0@ + ".json"@,
            exists|created: Seq<char>|
                r.2@ == enc_record(r.0@, tool_name@, created, full_output@),
    {
        let obs_id = new_observation_id();
        let created = crate::timeutil::now_rfc3339();
        let mut file_name = obs_id.clone();
        file_name.append(".json");
        let json = encode_record(obs_id.as_str(), tool_name, created.as_str(), full_output);
        proof {
            assert(json@ == enc_record(obs_id@, tool_name@, created@, full_output@));
        }
        (obs_id, file_name, json)
    }

    /// The archive file name of a well-formed observation id; any string
    /// that fails UUID syntax — in particular one holding a path separator
    /// or a `..` segment — is rejected before any file name is derived.
    pub fn observation_file_name(obs_id: &str) -> (r: Result<String, McpError>)
        ensures
            match r {
                Ok(f) => uuid_syntax(obs_id@) && f@ == obs_id@ + ".json"@,
                Err(_) => !uuid_syntax(obs_id@),
            },
    {
        if is_valid_observation_id(obs_id) {
            let mut f = obs_id.to_owned();
            f.append(".json");
            Ok(f)
        } else {
            Err(
                McpError::Other(
                    String::from_str(
                        "Invalid obs_id: must be a valid UUID (e.g. 550e8400-e29b-41d4-a716-446655440000)",
                    ),
                ),
            )
        }
    }

    /// Retrieves an archived output: the id is validated first, an absent
    /// file for a well-formed id is an empty result rather than an error,
    /// and a present record yields its content field.
    pub fn get(&self, obs_id: &str, file_content: Option<&String>) -> (r: Result<
        Option<String>,
        McpError,
    >)
        ensures
            !uuid_syntax(obs_id@) ==> r is Err,
            uuid_syntax(obs_id@) && file_content is None ==> r matches Ok(None),
            uuid_syntax(obs_id@) && file_content is Some ==> match sp_record_doc(
                file_content->Some_0@,
            ) {
                Some(rec) => r matches Ok(Some(c)) && c@ == rec.3,
                None => r is Err,
            },
    {
        if !is_valid_observation_id(obs_id) {
            return Err(
                McpError::Other(
                    String::from_str(
                        "Invalid obs_id: must be a valid UUID (e.g. 550e8400-e29b-41d4-a716-446655440000)",
                    ),
                ),
            );
        }
        match file_content {
            None => Ok(None),
            Some(s) => {
                let chars = crate::strutil::chars_of(s.as_str());
                match parse_record(&chars) {
                    Some((_id, _tool, _created, content)) => Ok(Some(content)),
                    None => Err(
                        McpError::Json(
                            String::from_str("the content is not an observation record"),
                        ),
                    ),
                }
            },
        }
    }
}

} // verus!

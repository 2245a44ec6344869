//! Custom provider presets and the current provider configuration. The
//! preset list lives in a JSON file the shell reads and writes; every rule
//! about it — unique ids, what add, update and delete do, where the API
//! key hides in the credentials — is decided here.

use vstd::prelude::*;
use crate::errors::CoreError;
use crate::jsonval::{Jv, jv, jv_get, v_as_str, v_get};
use crate::textops::{matches_at, starts_with_seq, str_eq, str_match_at, str_starts_with, str_trim, substring_copy, trimmed_view};

verus! {

/// The whitespace the configuration grammar accepts between key, equals
/// sign and value.
pub open spec fn is_cfg_ws(c: char) -> bool {
    c == ' ' || c == '\t' || c == '\n' || c == '\u{000B}' || c == '\u{000C}' || c == '\r'
}

/// The first position at or after `i` that is not configuration
/// whitespace, or the length of `s`.
pub open spec fn skip_cfg_ws(s: Seq<char>, i: int) -> int {
    if exists|j: int| i <= j < s.len() && !is_cfg_ws(s[j]) {
        choose|j: int|
            i <= j < s.len() && !is_cfg_ws(s[j]) && forall|q: int| i <= q < j ==> is_cfg_ws(s[q])
    } else {
        s.len() as int
    }
}

/// When `i..j` is whitespace and `j` is the end or non-whitespace, the
/// skip lands exactly on `j`.
proof fn lemma_skip_cfg_ws_is(s: Seq<char>, i: int, j: int)
    requires
        0 <= i <= j <= s.len(),
        forall|q: int| i <= q < j ==> is_cfg_ws(s[q]),
        j < s.len() ==> !is_cfg_ws(s[j]),
    ensures
        skip_cfg_ws(s, i) == j,
{
    if j < s.len() {
        assert(exists|q: int| i <= q < s.len() && !is_cfg_ws(s[q]));
        let c = choose|q: int|
            i <= q < s.len() && !is_cfg_ws(s[q]) && forall|p: int| i <= p < q ==> is_cfg_ws(s[p]);
        assert(c == j) by {
            if c < j {
                assert(is_cfg_ws(s[c]));
            }
            if j < c {
                assert(is_cfg_ws(s[j]));
            }
        }
    } else {
        assert(skip_cfg_ws(s, i) == j) by {
            if exists|q: int| i <= q < s.len() && !is_cfg_ws(s[q]) {
                let c = choose|q: int|
                    i <= q < s.len() && !is_cfg_ws(s[q]) && forall|p: int|
                        i <= p < q ==> is_cfg_ws(s[p]);
                assert(is_cfg_ws(s[c]));
            }
        }
    }
}

/// The first double quote at or after `i`, if any.
pub open spec fn quote_from(s: Seq<char>, i: int) -> Option<int> {
    if exists|j: int| i <= j < s.len() && s[j] == '"' {
        Some(
            choose|j: int|
                i <= j < s.len() && s[j] == '"' && forall|q: int| i <= q < j ==> s[q] != '"',
        )
    } else {
        None
    }
}

/// When `j` holds the first quote at or after `i`, `quote_from` picks it.
proof fn lemma_quote_from_is(s: Seq<char>, i: int, j: int)
    requires
        0 <= i <= j < s.len(),
        s[j] == '"',
        forall|q: int| i <= q < j ==> s[q] != '"',
    ensures
        quote_from(s, i) == Some(j),
{
    assert(exists|q: int| i <= q < s.len() && s[q] == '"');
    let c = choose|q: int|
        i <= q < s.len() && s[q] == '"' && forall|p: int| i <= p < q ==> s[p] != '"';
    assert(c == j) by {
        if c < j {
            assert(s[c] != '"');
        }
        if j < c {
            assert(s[j] != '"');
        }
    }
}

/// When no quote follows `i`, `quote_from` is `None`.
proof fn lemma_quote_from_none(s: Seq<char>, i: int)
    requires
        forall|q: int| i <= q < s.len() ==> s[q] != '"',
    ensures
        quote_from(s, i) is None,
{
}

/// The quoted value a `key … = "value"` occurrence starting at `p` yields:
/// the key itself, optional whitespace, an equals sign, optional
/// whitespace, and a quoted run of at least one non-quote character.
#[verifier::opaque]
pub open spec fn key_quoted_at(s: Seq<char>, key: Seq<char>, p: int) -> Option<Seq<char>> {
    if matches_at(s, key, p) {
        let q1 = skip_cfg_ws(s, p + key.len());
        if q1 < s.len() && s[q1] == '=' {
            let q2 = skip_cfg_ws(s, q1 + 1);
            if q2 < s.len() && s[q2] == '"' {
                match quote_from(s, q2 + 1) {
                    Some(e) => if e > q2 + 1 {
                        Some(s.subrange(q2 + 1, e))
                    } else {
                        None
                    },
                    None => None,
                }
            } else {
                None
            }
        } else {
            None
        }
    } else {
        None
    }
}

/// The value of the leftmost such occurrence in `s`, if any.
pub open spec fn first_key_quoted(s: Seq<char>, key: Seq<char>) -> Option<Seq<char>> {
    if exists|p: int| 0 <= p <= s.len() && key_quoted_at(s, key, p) is Some {
        key_quoted_at(
            s,
            key,
            choose|p: int|
                0 <= p <= s.len() && key_quoted_at(s, key, p) is Some && forall|q: int|
                    0 <= q < p ==> key_quoted_at(s, key, q) is None,
        )
    } else {
        None
    }
}

/// The first non-whitespace position at or after `i`.
fn skip_cfg_ws_exec(s: &str, i: usize, len: usize) -> (r: usize)
    requires
        len == s@.len(),
        i <= len,
    ensures
        i <= r <= len,
        r == skip_cfg_ws(s@, i as int),
{
    let mut j: usize = i;
    while j < len
        invariant
            len == s@.len(),
            i <= j <= len,
            forall|q: int| i <= q < j ==> is_cfg_ws(s@[q]),
        decreases len - j,
    {
        let c = s.get_char(j);
        let ws = c == ' ' || c == '\t' || c == '\n' || c == '\u{000B}' || c == '\u{000C}' || c
            == '\r';
        if !ws {
            proof {
                lemma_skip_cfg_ws_is(s@, i as int, j as int);
            }
            return j;
        }
        j += 1;
    }
    proof {
        lemma_skip_cfg_ws_is(s@, i as int, len as int);
    }
    len
}

/// The first quote at or after `i`.
fn quote_from_exec(s: &str, i: usize, len: usize) -> (r: Option<usize>)
    requires
        len == s@.len(),
        i <= len,
    ensures
        match r {
            Some(j) => i <= j < len && quote_from(s@, i as int) == Some(j as int),
            None => quote_from(s@, i as int) is None,
        },
{
    let mut j: usize = i;
    while j < len
        invariant
            len == s@.len(),
            i <= j <= len,
            forall|q: int| i <= q < j ==> s@[q] != '"',
        decreases len - j,
    {
        if s.get_char(j) == '"' {
            proof {
                lemma_quote_from_is(s@, i as int, j as int);
            }
            return Some(j);
        }
        j += 1;
    }
    proof {
        lemma_quote_from_none(s@, i as int);
    }
    None
}

/// The value of a `key … = "value"` occurrence at `p`, if one starts there.
fn key_quoted_at_exec(s: &str, key: &str, p: usize, s_len: usize, key_len: usize) -> (r: Option<
    String,
>)
    requires
        s_len == s@.len(),
        key_len == key@.len(),
        p <= s_len,
    ensures
        match r {
            Some(v) => key_quoted_at(s@, key@, p as int) == Some(v@),
            None => key_quoted_at(s@, key@, p as int) is None,
        },
{
    proof {
        reveal(key_quoted_at);
    }
    if key_len > s_len - p {
        return None;
    }
    if !str_match_at(s, key, p, s_len, key_len) {
        return None;
    }
    let q1 = skip_cfg_ws_exec(s, p + key_len, s_len);
    if q1 >= s_len {
        return None;
    }
    if s.get_char(q1) != '=' {
        return None;
    }
    let q2 = skip_cfg_ws_exec(s, q1 + 1, s_len);
    if q2 >= s_len {
        return None;
    }
    if s.get_char(q2) != '"' {
        return None;
    }
    match quote_from_exec(s, q2 + 1, s_len) {
        Some(e) => {
            if e > q2 + 1 {
                Some(substring_copy(s, q2 + 1, e))
            } else {
                None
            }
        },
        None => None,
    }
}

/// The value of the leftmost `key … = "value"` occurrence in `s`.
pub fn find_key_quoted(s: &str, key: &str) -> (r: Option<String>)
    ensures
        match r {
            Some(v) => first_key_quoted(s@, key@) == Some(v@),
            None => first_key_quoted(s@, key@) is None,
        },
{
    let s_len = s.unicode_len();
    let key_len = key.unicode_len();
    let mut p: usize = 0;
    while p < s_len
        invariant
            s_len == s@.len(),
            key_len == key@.len(),
            p <= s_len,
            forall|q: int| 0 <= q < p ==> key_quoted_at(s@, key@, q) is None,
        decreases s_len - p,
    {
        match key_quoted_at_exec(s, key, p, s_len, key_len) {
            Some(v) => {
                proof {
                    assert(key_quoted_at(s@, key@, p as int) is Some);
                    let c = choose|q: int|
                        0 <= q <= s@.len() && key_quoted_at(s@, key@, q) is Some && forall|w: int|
                            0 <= w < q ==> key_quoted_at(s@, key@, w) is None;
                    assert(c == p as int) by {
                        if c < p as int {
                            assert(key_quoted_at(s@, key@, c) is None);
                        }
                        if (p as int) < c {
                            assert(key_quoted_at(s@, key@, p as int) is None);
                        }
                    }
                }
                return Some(v);
            },
            None => {},
        }
        p += 1;
    }
    proof {
        assert(key_quoted_at(s@, key@, s_len as int) is None) by {
            reveal(key_quoted_at);
            if matches_at(s@, key@, s_len as int) {
                assert(key@.len() == 0);
                assert(skip_cfg_ws(s@, s_len as int) == s@.len());
            }
        }
        if exists|q: int| 0 <= q <= s@.len() && key_quoted_at(s@, key@, q) is Some {
            let c = choose|q: int| 0 <= q <= s@.len() && (#[trigger] key_quoted_at(s@, key@, q)) is Some;
            assert(key_quoted_at(s@, key@, c) is None);
        }
    }
    None
}

/// The value of the leftmost `base_url … = "value"` occurrence in the
/// configuration text.
pub fn extract_base_url_from_config(config: &str) -> (r: Option<String>)
    ensures
        match r {
            Some(v) => first_key_quoted(config@, "base_url"@) == Some(v@),
            None => first_key_quoted(config@, "base_url"@) is None,
        },
{
    find_key_quoted(config, "base_url")
}

/// The first newline at or after `i`, or the length of `s`.
pub open spec fn line_end_from(s: Seq<char>, i: int) -> int {
    if exists|j: int| i <= j < s.len() && s[j] == '\n' {
        choose|j: int|
            i <= j < s.len() && s[j] == '\n' && forall|q: int| i <= q < j ==> s[q] != '\n'
    } else {
        s.len() as int
    }
}

/// When `j` holds the first newline at or after `i` (or is the end), the
/// line ends exactly there.
pub proof fn lemma_line_end_is(s: Seq<char>, i: int, j: int)
    requires
        0 <= i <= j <= s.len(),
        forall|q: int| i <= q < j ==> s[q] != '\n',
        j < s.len() ==> s[j] == '\n',
    ensures
        line_end_from(s, i) == j,
{
    if j < s.len() {
        assert(exists|q: int| i <= q < s.len() && s[q] == '\n');
        let c = choose|q: int|
            i <= q < s.len() && s[q] == '\n' && forall|p: int| i <= p < q ==> s[p] != '\n';
        assert(c == j) by {
            if c < j {
                assert(s[c] != '\n');
            }
            if j < c {
                assert(s[j] != '\n');
            }
        }
    } else {
        assert(line_end_from(s, i) == j) by {
            if exists|q: int| i <= q < s.len() && s[q] == '\n' {
                let c = choose|q: int|
                    i <= q < s.len() && s[q] == '\n' && forall|p: int| i <= p < q ==> s[p] != '\n';
                assert(s[c] != '\n');
            }
        }
    }
}

/// The model named in the configuration text: the first line whose trimmed
/// form begins `model =` decides, and yields the leftmost quoted `model`
/// value inside it, if any.
#[verifier::opaque]
pub open spec fn model_of_config(s: Seq<char>, i: int) -> Option<Seq<char>>
    decreases s.len() + 1 - i,
{
    if i < 0 || i >= s.len() {
        None
    } else {
        let e = line_end_from(s, i);
        if i <= e <= s.len() {
            let t = trimmed_view(s.subrange(i, e));
            if starts_with_seq(t, "model ="@) {
                first_key_quoted(t, "model"@)
            } else {
                model_of_config(s, e + 1)
            }
        } else {
            None
        }
    }
}

/// The model named in the configuration text, scanning line by line.
pub fn extract_model_from_config(config: &str) -> (r: Option<String>)
    ensures
        match r {
            Some(v) => model_of_config(config@, 0) == Some(v@),
            None => model_of_config(config@, 0) is None,
        },
{
    let len = config.unicode_len();
    let mut i: usize = 0;
    while i < len
        invariant
            len == config@.len(),
            i <= len,
            model_of_config(config@, 0) == model_of_config(config@, i as int),
        decreases len - i,
    {
        let mut e: usize = i;
        while e < len && config.get_char(e) != '\n'
            invariant
                len == config@.len(),
                i <= e <= len,
                forall|q: int| i <= q < e ==> config@[q] != '\n',
            decreases len - e,
        {
            e += 1;
        }
        proof {
            lemma_line_end_is(config@, i as int, e as int);
            reveal(model_of_config);
        }
        let line = substring_copy(config, i, e);
        let t = str_trim(line.as_str());
        if str_starts_with(t.as_str(), "model =") {
            return find_key_quoted(t.as_str(), "model");
        }
        proof {
            assert(model_of_config(config@, i as int) == model_of_config(config@, e as int + 1));
        }
        if e == len {
            proof {
                reveal(model_of_config);
                assert(model_of_config(config@, e as int + 1) is None);
            }
            return None;
        }
        i = e + 1;
    }
    proof {
        reveal(model_of_config);
    }
    None
}

/// One provider preset: identity and description, the credentials object
/// for the auth file, and the configuration text for the config file.
#[derive(Debug)]
pub struct CodexProviderConfig {
    pub id: String,
    pub name: String,
    pub description: Option<String>,
    pub website_url: Option<String>,
    pub category: Option<String>,
    pub auth: serde_json::Value,
    pub config: String,
    pub is_official: Option<bool>,
    pub is_partner: Option<bool>,
    pub created_at: Option<i64>,
}

/// What the active configuration files currently hold.
#[derive(Debug)]
pub struct CurrentCodexConfig {
    pub auth: serde_json::Value,
    pub config: String,
    pub api_key: Option<String>,
    pub base_url: Option<String>,
    pub model: Option<String>,
}

/// A preset with this id exists in the list.
pub open spec fn has_provider(list: Seq<CodexProviderConfig>, id: Seq<char>) -> bool {
    exists|i: int| 0 <= i < list.len() && (#[trigger] list[i]).id@ == id
}

/// "Provider with ID '<id>' already exists"
pub open spec fn msg_provider_exists(id: Seq<char>) -> Seq<char> {
    "Provider with ID '"@ + id + "' already exists"@
}

/// "Provider with ID '<id>' not found"
pub open spec fn msg_provider_not_found(id: Seq<char>) -> Seq<char> {
    "Provider with ID '"@ + id + "' not found"@
}

/// Builds one of the two id-carrying messages.
fn provider_message(id: &str, exists_msg: bool) -> (r: String)
    ensures
        r@ == if exists_msg {
            msg_provider_exists(id@)
        } else {
            msg_provider_not_found(id@)
        },
{
    let mut m = "Provider with ID '".to_owned();
    m.append(id);
    if exists_msg {
        m.append("' already exists");
    } else {
        m.append("' not found");
    }
    proof {
        if exists_msg {
            assert(m@ =~= msg_provider_exists(id@));
        } else {
            assert(m@ =~= msg_provider_not_found(id@));
        }
    }
    m
}

/// The position of the first preset with this id.
fn position_of_provider(list: &Vec<CodexProviderConfig>, id: &str) -> (r: Option<usize>)
    ensures
        match r {
            Some(i) => i < list@.len() && list@[i as int].id@ == id@ && forall|q: int|
                0 <= q < i ==> (#[trigger] list@[q]).id@ != id@,
            None => !has_provider(list@, id@),
        },
{
    let n = list.len();
    let mut j: usize = 0;
    while j < n
        invariant
            n == list@.len(),
            j <= n,
            forall|q: int| 0 <= q < j ==> (#[trigger] list@[q]).id@ != id@,
        decreases n - j,
    {
        if str_eq(list[j].id.as_str(), id) {
            return Some(j);
        }
        j += 1;
    }
    None
}

/// Adds a preset: appended at the end, unless one with the same id is
/// already there, which is refused by name.
pub fn add_codex_provider_config(
    providers: Vec<CodexProviderConfig>,
    config: CodexProviderConfig,
) -> (r: Result<Vec<CodexProviderConfig>, CoreError>)
    ensures
        match r {
            Ok(out) => !has_provider(providers@, config.id@) && out@ == providers@.push(config),
            Err(e) => {
                &&& has_provider(providers@, config.id@)
                &&& e is InvalidState
                &&& e.message_view() == msg_provider_exists(config.id@)
            },
        },
{
    match position_of_provider(&providers, config.id.as_str()) {
        Some(i) => {
            proof {
                assert(providers@[i as int].id@ == config.id@);
            }
            Err(CoreError::InvalidState(provider_message(config.id.as_str(), true)))
        },
        None => {
            let mut out = providers;
            out.push(config);
            Ok(out)
        },
    }
}

/// Replaces the preset whose id matches, in place; refused by name when
/// none matches.
pub fn update_codex_provider_config(
    providers: Vec<CodexProviderConfig>,
    config: CodexProviderConfig,
) -> (r: Result<Vec<CodexProviderConfig>, CoreError>)
    ensures
        match r {
            Ok(out) => exists|i: int|
                0 <= i < providers@.len() && (#[trigger] providers@[i]).id@ == config.id@ && (
                forall|q: int| 0 <= q < i ==> (#[trigger] providers@[q]).id@ != config.id@) && out@
                    == providers@.update(i, config),
            Err(e) => {
                &&& !has_provider(providers@, config.id@)
                &&& e is NotFound
                &&& e.message_view() == msg_provider_not_found(config.id@)
            },
        },
{
    match position_of_provider(&providers, config.id.as_str()) {
        Some(i) => {
            let mut out = providers;
            out.set(i, config);
            Ok(out)
        },
        None => Err(CoreError::NotFound(provider_message(config.id.as_str(), false))),
    }
}

/// Drops every preset whose id matches, keeping the rest in order; refused
/// by name when none matches.
pub fn delete_codex_provider_config(providers: Vec<CodexProviderConfig>, id: &str) -> (r: Result<
    Vec<CodexProviderConfig>,
    CoreError,
>)
    ensures
        match r {
            Ok(out) => has_provider(providers@, id@) && out@ == providers@.filter(
                |p: CodexProviderConfig| p.id@ != id@,
            ),
            Err(e) => {
                &&& !has_provider(providers@, id@)
                &&& e is NotFound
                &&& e.message_view() == msg_provider_not_found(id@)
            },
        },
{
    let ghost pred = |p: CodexProviderConfig| p.id@ != id@;
    let n = providers.len();
    let mut kept: Vec<CodexProviderConfig> = Vec::new();
    let mut found = false;
    let mut providers = providers;
    proof {
        assert(providers@.take(0).filter(pred) =~= Seq::<CodexProviderConfig>::empty());
        reveal_with_fuel(Seq::filter, 1);
    }
    let ghost orig = providers@;
    let mut j: usize = 0;
    while j < n
        invariant
            n == orig.len(),
            providers@.len() == orig.len() - j,
            forall|q: int| 0 <= q < providers@.len() ==> providers@[q] == orig[j + q],
            j <= n,
            kept@ == orig.take(j as int).filter(pred),
            found == exists|q: int| 0 <= q < j && (#[trigger] orig[q]).id@ == id@,
            pred == (|p: CodexProviderConfig| p.id@ != id@),
        decreases n - j,
    {
        proof {
            assert(orig.take(j as int + 1).drop_last() =~= orig.take(j as int));
            assert(orig.take(j as int + 1).last() == orig[j as int]);
            reveal_with_fuel(Seq::filter, 2);
        }
        let p = providers.remove(0);
        proof {
            assert(p == orig[j as int]);
        }
        let matches_id = str_eq(p.id.as_str(), id);
        if matches_id {
            found = true;
        } else {
            kept.push(p);
        }
        j += 1;
    }
    proof {
        assert(orig.take(n as int) =~= orig);
    }
    if found {
        Ok(kept)
    } else {
        Err(CoreError::NotFound(provider_message(id, false)))
    }
}

/// The API key among the credentials: the first of `OPENAI_API_KEY`,
/// `OPENAI_KEY`, `API_KEY` that is present, when it holds a string.
pub open spec fn api_key_of(auth: Jv) -> Option<Seq<char>> {
    match (jv_get(auth, "OPENAI_API_KEY"@), jv_get(auth, "OPENAI_KEY"@), jv_get(auth, "API_KEY"@)) {
        (Some(v), _, _) => str_or_none(v),
        (None, Some(v), _) => str_or_none(v),
        (None, None, Some(v)) => str_or_none(v),
        (None, None, None) => None,
    }
}

/// The string a value holds, when it is one.
pub open spec fn str_or_none(v: Jv) -> Option<Seq<char>> {
    match v {
        Jv::Str(s) => Some(s),
        _ => None,
    }
}

/// Reads the API key out of the credentials object.
pub fn extract_api_key_from_auth(auth: &serde_json::Value) -> (r: Option<String>)
    ensures
        match r {
            Some(k) => api_key_of(jv(*auth)) == Some(k@),
            None => api_key_of(jv(*auth)) is None,
        },
{
    let picked = match v_get(auth, "OPENAI_API_KEY") {
        Some(v) => Some(v),
        None => match v_get(auth, "OPENAI_KEY") {
            Some(v) => Some(v),
            None => match v_get(auth, "API_KEY") {
                Some(v) => Some(v),
                None => None,
            },
        },
    };
    match picked {
        Some(v) => match v_as_str(v) {
            Some(s) => Some(s.to_owned()),
            None => None,
        },
        None => None,
    }
}

} // verus!

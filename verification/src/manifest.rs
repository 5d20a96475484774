//! The plugin manifest: the declarative, versioned description of a plugin,
//! and the rules a manifest must satisfy.

use vstd::prelude::*;

use crate::error::{PluginError, PluginResult};
use crate::external::json_null;
use crate::text::{
    concat2, concat3, decimal, decimal_string, join_on, lemma_join_split, lemma_split_append_piece,
    lemma_split_without_sep, split_char, split_on, trim, trimmed,
};
use crate::traits::PluginConfig;

verus! {

/// Current manifest schema version.
pub const MANIFEST_SCHEMA_VERSION: u32 = 1;

/// The category of capability a plugin provides.
#[derive(Debug, Clone, Copy, PartialEq, Eq, Structural)]
pub enum PluginKind {
    /// Version-control adapter.
    Vcs,
    /// Storage adapter.
    Storage,
    /// An agent skill.
    Skill,
    /// An agent tool.
    Tool,
}

/// Declarative, versioned description of a single plugin.
#[derive(Debug, Clone, PartialEq)]
pub struct PluginManifest {
    /// Manifest schema version this document conforms to.
    pub schema_version: u32,
    /// Plugin name, unique within its kind.
    pub name: String,
    /// Plugin version, `MAJOR.MINOR.PATCH`.
    pub version: String,
    /// Human-readable description of what the plugin does.
    pub description: String,
    /// What category of capability the plugin provides.
    pub kind: PluginKind,
    /// Free-form capability tags.
    pub capabilities: Vec<String>,
    /// JSON Schema describing the plugin's parameters.
    pub parameters: serde_json::Value,
    /// Entry point identifier the host uses to load the plugin.
    pub entrypoint: String,
}

/// An ASCII decimal digit.
pub open spec fn is_ascii_digit(c: char) -> bool {
    '0' <= c <= '9'
}

/// `v` is `MAJOR.MINOR.PATCH`: exactly three dot-separated parts, each a
/// non-empty run of ASCII digits.
pub open spec fn is_semver(v: Seq<char>) -> bool {
    let parts = split_on(v, '.');
    &&& parts.len() == 3
    &&& forall|i: int| 0 <= i < 3 ==> (#[trigger] parts[i]).len() > 0
    &&& forall|i: int, j: int|
        0 <= i < 3 && 0 <= j < parts[i].len() ==> is_ascii_digit(#[trigger] parts[i][j])
}

/// The message of the error for a version that is not `MAJOR.MINOR.PATCH`, if any.
pub open spec fn semver_error(v: Seq<char>) -> Option<Seq<char>> {
    if split_on(v, '.').len() != 3 {
        Some("version '"@ + v + "' must be MAJOR.MINOR.PATCH"@)
    } else if !is_semver(v) {
        Some("version '"@ + v + "' has a non-numeric component"@)
    } else {
        None
    }
}

/// A non-empty run of the decimal digits `0` to `9`.
pub open spec fn digit_run(s: Seq<char>) -> bool {
    s.len() > 0 && forall|i: int| 0 <= i < s.len() ==> '0' <= #[trigger] s[i] && s[i] <= '9'
}

proof fn lemma_digit_run_has_no_dot(s: Seq<char>)
    requires
        digit_run(s),
    ensures
        !s.contains('.'),
{
    if s.contains('.') {
        let i = choose|i: int| 0 <= i < s.len() && s[i] == '.';
        assert('0' <= s[i]);
    }
}

/// Every version made of three runs of decimal digits joined by dots is
/// accepted.
pub proof fn lemma_semver_accepts_digit_triples(a: Seq<char>, b: Seq<char>, c: Seq<char>)
    requires
        digit_run(a),
        digit_run(b),
        digit_run(c),
    ensures
        semver_error(a + "."@ + b + "."@ + c) is None,
{
    reveal_strlit(".");
    lemma_digit_run_has_no_dot(a);
    lemma_digit_run_has_no_dot(b);
    lemma_digit_run_has_no_dot(c);
    lemma_split_without_sep(a, '.');
    lemma_split_append_piece(a, b, '.');
    let ab = a.push('.') + b;
    lemma_split_append_piece(ab, c, '.');
    let v = a + "."@ + b + "."@ + c;
    assert(v =~= ab.push('.') + c);
    let parts = split_on(v, '.');
    assert(parts =~= seq![a, b, c]);
    assert(is_semver(v)) by {
        assert forall|i: int| 0 <= i < 3 implies (#[trigger] parts[i]).len() > 0 by {
            if i == 0 {
                assert(parts[i] == a);
            } else if i == 1 {
                assert(parts[i] == b);
            } else {
                assert(parts[i] == c);
            }
        }
        assert forall|i: int, j: int|
            0 <= i < 3 && 0 <= j < parts[i].len() implies is_ascii_digit(#[trigger] parts[i][j]) by {
            if i == 0 {
                assert(parts[i][j] == a[j]);
            } else if i == 1 {
                assert(parts[i][j] == b[j]);
            } else {
                assert(parts[i][j] == c[j]);
            }
        }
    }
}

/// Only such versions are accepted: an accepted version is three runs of
/// decimal digits joined by dots.
pub proof fn lemma_semver_accepts_only_digit_triples(v: Seq<char>)
    requires
        semver_error(v) is None,
    ensures
        exists|a: Seq<char>, b: Seq<char>, c: Seq<char>|
            digit_run(a) && digit_run(b) && digit_run(c) && v == a + "."@ + b + "."@ + c,
{
    reveal_strlit(".");
    let ps = split_on(v, '.');
    lemma_join_split(v, '.');
    assert(ps.len() == 3);
    assert(ps.drop_last().drop_last() =~= seq![ps[0]]);
    assert(ps.drop_last().last() == ps[1]);
    assert(join_on(ps.drop_last(), '.') == join_on(ps.drop_last().drop_last(), '.').push('.') + ps[1]);
    assert(join_on(ps.drop_last().drop_last(), '.') == ps[0]);
    assert(v == join_on(ps.drop_last(), '.').push('.') + ps[2]);
    assert(v =~= ps[0] + "."@ + ps[1] + "."@ + ps[2]);
    assert forall|k: int| 0 <= k < 3 implies digit_run(#[trigger] ps[k]) by {
        assert(ps[k].len() > 0);
        assert forall|i: int| 0 <= i < ps[k].len() implies '0' <= #[trigger] ps[k][i] && ps[k][i] <= '9' by {
            assert(is_ascii_digit(ps[k][i]));
        }
    }
    assert(digit_run(ps[0]) && digit_run(ps[1]) && digit_run(ps[2]));
}

/// Validates a `MAJOR.MINOR.PATCH` version.
pub fn validate_semver(version: &str) -> (r: PluginResult<()>)
    ensures
        match semver_error(version@) {
            None => r is Ok,
            Some(msg) => r matches Err(PluginError::Config(m)) && m@ == msg,
        },
{
    let parts = split_char(version, '.');
    if parts.len() != 3 {
        let m = concat3("version '", version, "' must be MAJOR.MINOR.PATCH");
        return Err(PluginError::Config(m));
    }
    let ghost ps = crate::text::views(parts@);
    let mut i: usize = 0;
    while i < 3
        invariant
            ps == crate::text::views(parts@),
            ps == split_on(version@, '.'),
            parts@.len() == 3,
            i <= 3,
            forall|k: int| 0 <= k < i ==> (#[trigger] ps[k]).len() > 0,
            forall|k: int, j: int|
                0 <= k < i && 0 <= j < ps[k].len() ==> is_ascii_digit(#[trigger] ps[k][j]),
        decreases 3 - i,
    {
        let part = parts[i].as_str();
        assert(part@ == ps[i as int]);
        let n = part.unicode_len();
        let mut ok = n > 0;
        let mut j: usize = 0;
        while ok && j < n
            invariant
                n == part@.len(),
                j <= n,
                ok ==> n > 0,
                ok ==> forall|q: int| 0 <= q < j ==> is_ascii_digit(#[trigger] part@[q]),
                !ok ==> !(n > 0 && forall|q: int| 0 <= q < n ==> is_ascii_digit(
                    #[trigger] part@[q],
                )),
            decreases n - j + (if ok { 1int } else { 0int }),
        {
            let c = part.get_char(j);
            if !('0' <= c && c <= '9') {
                ok = false;
            } else {
                j = j + 1;
            }
        }
        if !ok {
            let m = concat3("version '", version, "' has a non-numeric component");
            proof {
                assert(!is_semver(version@)) by {
                    if is_semver(version@) {
                        assert(ps[i as int].len() > 0);
                        assert forall|q: int| 0 <= q < n implies is_ascii_digit(
                            #[trigger] part@[q],
                        ) by {
                            assert(is_ascii_digit(ps[i as int][q]));
                        }
                    }
                }
            }
            return Err(PluginError::Config(m));
        }
        i = i + 1;
    }
    Ok(())
}

/// The message of the first rule that `m` breaks, in the order the rules are
/// checked, or `None` for a valid manifest.
pub open spec fn manifest_error(
    schema_version: u32,
    name: Seq<char>,
    version: Seq<char>,
    description: Seq<char>,
    entrypoint: Seq<char>,
) -> Option<Seq<char>> {
    if schema_version != MANIFEST_SCHEMA_VERSION {
        Some(
            "unsupported manifest schema_version "@ + decimal(schema_version as nat)
                + " (expected 1)"@,
        )
    } else if trimmed(name).len() == 0 {
        Some("manifest name is empty"@)
    } else if trimmed(description).len() == 0 {
        Some("manifest description is empty"@)
    } else if trimmed(entrypoint).len() == 0 {
        Some("manifest entrypoint is empty"@)
    } else {
        semver_error(version)
    }
}

impl PluginManifest {
    /// The first rule this manifest breaks, if any.
    pub open spec fn spec_error(&self) -> Option<Seq<char>> {
        manifest_error(
            self.schema_version,
            self.name@,
            self.version@,
            self.description@,
            self.entrypoint@,
        )
    }

    /// Validates the manifest: supported schema version, non-blank name,
    /// description and entrypoint, and a `MAJOR.MINOR.PATCH` version.
    pub fn validate(&self) -> (r: PluginResult<()>)
        ensures
            match self.spec_error() {
                None => r is Ok,
                Some(msg) => r matches Err(PluginError::Config(m)) && m@ == msg,
            },
    {
        if self.schema_version != MANIFEST_SCHEMA_VERSION {
            let mut m = String::from_str("unsupported manifest schema_version ");
            let n = decimal_string(self.schema_version as u64);
            m.append(n.as_str());
            m.append(" (expected 1)");
            return Err(PluginError::Config(m));
        }
        if trim(self.name.as_str()).unicode_len() == 0 {
            return Err(PluginError::Config(String::from_str("manifest name is empty")));
        }
        if trim(self.description.as_str()).unicode_len() == 0 {
            return Err(PluginError::Config(String::from_str("manifest description is empty")));
        }
        if trim(self.entrypoint.as_str()).unicode_len() == 0 {
            return Err(PluginError::Config(String::from_str("manifest entrypoint is empty")));
        }
        validate_semver(self.version.as_str())
    }

    /// Accepts the outcome of parsing a manifest document: a parse failure
    /// (with its message) becomes a configuration error, and a parsed
    /// manifest is returned only if it validates.
    pub fn from_parse_result(parsed: Result<PluginManifest, String>) -> (r: PluginResult<
        PluginManifest,
    >)
        ensures
            match parsed {
                Err(e) => r matches Err(PluginError::Config(m)) && m@ == "invalid manifest JSON: "@
                    + e@,
                Ok(doc) => match doc.spec_error() {
                    None => r == Ok::<PluginManifest, PluginError>(doc),
                    Some(msg) => r matches Err(PluginError::Config(m)) && m@ == msg,
                },
            },
    {
        match parsed {
            Err(e) => Err(PluginError::Config(concat2("invalid manifest JSON: ", e.as_str()))),
            Ok(doc) => {
                let checked = doc.validate();
                match checked {
                    Ok(()) => Ok(doc),
                    Err(err) => Err(err),
                }
            },
        }
    }

    /// Derives the runtime configuration this manifest describes: its name
    /// and version, with a JSON `null` adapter configuration.
    pub fn to_config(&self) -> (r: PluginConfig)
        ensures
            r.name@ == self.name@,
            r.version@ == self.version@,
    {
        PluginConfig {
            name: self.name.clone(),
            version: self.version.clone(),
            adapter_config: json_null(),
        }
    }
}

} // verus!

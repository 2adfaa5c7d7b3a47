//! Voices: the system prompt of the prose pass.
//!
//! A voice is a bundled profile (`terse`, `prose`, or the alias
//! `default`), a user-supplied Markdown file used whole, or, when
//! nothing is configured, the bundled `terse` voice.

use vstd::prelude::*;

use crate::text::{chars_of, eq_str, push_str, trim, trim_exec};

verus! {

/// The bundled `terse` voice.
pub const TERSE_VOICE_MD: &'static str = "You write release notes as short Markdown bullet lists.\n\nFor each section you are given, write a `### Section Name` header followed by one bullet per entry. Keep every bullet to a single line in the imperative mood, starting with a capital letter and without a trailing period. Keep PR references such as (#42) at the end of the bullet. Merge entries that describe the same change, drop noise such as merge commits or version bumps, and never invent changes that are not in the list.\n\nOutput GitHub-flavored Markdown only: no preamble, no closing remarks, no top-level title.\n";

/// The bundled `prose` voice.
pub const PROSE_VOICE_MD: &'static str = "You write release notes that explain changes to the people who use the software.\n\nFor each section you are given, write a `### Section Name` header followed by bullets. Marquee bullets \u{2014} the two or three changes users will care about most \u{2014} get a bold lead phrase and one to three sentences on what changed and why it matters. Smaller changes get a single plain line. Use commit and PR bodies, when provided, for context, but do not quote them at length. Keep PR references such as (#42) at the end of the bullet, and never invent changes that are not in the list.\n\nOutput GitHub-flavored Markdown only: no preamble, no closing remarks, no top-level title.\n";

/// Canonical names of the bundled profiles, in display order.
pub fn bundled_names() -> (r: &'static [&'static str])
    ensures
        r@.len() == 2,
        r@[0]@ == "terse"@,
        r@[1]@ == "prose"@,
{
    let r: &'static [&'static str] = &["terse", "prose"];
    r
}

/// The system prompt of a run and where it came from.
#[derive(Debug, Clone, PartialEq, Eq)]
pub struct Voice {
    pub system_prompt: String,
    /// Loaded from a user-supplied file.
    pub is_custom: bool,
    /// Canonical bundled profile name, for bundled voices.
    pub bundled_name: Option<&'static str>,
}

#[derive(Debug, PartialEq, Eq)]
pub enum VoiceError {
    Io { path: String, message: String },
    Empty { path: String },
    UnknownProfile { name: String, known: &'static [&'static str] },
}

/// The names of a list, as character sequences.
pub open spec fn name_views(known: Seq<&'static str>) -> Seq<Seq<char>> {
    known.map_values(|s: &'static str| s@)
}

/// What a voice error says.
pub open spec fn voice_error_text(e: VoiceError) -> Seq<char> {
    match e {
        VoiceError::Io { path, message } => "could not read voice file "@ + path@ + ": "@ + message@,
        VoiceError::Empty { path } => "voice file "@ + path@ + " is empty"@,
        VoiceError::UnknownProfile { name, known } => "unknown voice profile `"@ + name@ + "` (known: "@
            + crate::prompts::comma_joined(name_views(known@)) + ")"@,
    }
}

impl VoiceError {
    /// The error's message.
    pub fn message(&self) -> (r: String)
        ensures
            r@ == voice_error_text(*self),
    {
        let mut out = String::new();
        match self {
            VoiceError::Io { path, message } => {
                push_str(&mut out, "could not read voice file ");
                push_str(&mut out, path.as_str());
                push_str(&mut out, ": ");
                push_str(&mut out, message.as_str());
            },
            VoiceError::Empty { path } => {
                push_str(&mut out, "voice file ");
                push_str(&mut out, path.as_str());
                push_str(&mut out, " is empty");
            },
            VoiceError::UnknownProfile { name, known } => {
                let mut names: Vec<String> = Vec::new();
                let mut i: usize = 0;
                while i < known.len()
                    invariant
                        i <= known@.len(),
                        crate::text::string_views(names@) == name_views(known@).take(i as int),
                    decreases known@.len() - i,
                {
                    let ghost before = names@;
                    names.push(String::from_str(known[i]));
                    proof {
                        assert(crate::text::string_views(names@) =~= crate::text::string_views(before).push(known@[i as int]@));
                        assert(name_views(known@).take(i + 1) =~= name_views(known@).take(i as int).push(known@[i as int]@));
                    }
                    i = i + 1;
                }
                proof {
                    assert(name_views(known@).take(known@.len() as int) =~= name_views(known@));
                }
                push_str(&mut out, "unknown voice profile `");
                push_str(&mut out, name.as_str());
                push_str(&mut out, "` (known: ");
                let joined = crate::prompts::join_comma(&names);
                push_str(&mut out, joined.as_str());
                push_str(&mut out, ")");
            },
        }
        out
    }
}

/// Canonical name and body of a bundled profile; `default` names `terse`.
pub open spec fn bundled(name: Seq<char>) -> Option<(Seq<char>, Seq<char>)> {
    if name == "default"@ || name == "terse"@ {
        Some(("terse"@, TERSE_VOICE_MD@))
    } else if name == "prose"@ {
        Some(("prose"@, PROSE_VOICE_MD@))
    } else {
        None
    }
}

/// `v` is the bundled voice `name` names.
pub open spec fn is_bundled_voice(v: Voice, name: Seq<char>) -> bool {
    match bundled(name) {
        Some((canonical, body)) => !v.is_custom && v.system_prompt@ == trim(body) && (v.bundled_name matches Some(n)
            && n@ == canonical),
        None => false,
    }
}

fn bundled_by_name(name: &str) -> (r: Option<(&'static str, &'static str)>)
    ensures
        match r {
            Some((c, b)) => bundled(name@) == Some((c@, b@)),
            None => bundled(name@) is None,
        },
{
    let v = chars_of(name);
    if eq_str(&v, "default") || eq_str(&v, "terse") {
        Some(("terse", TERSE_VOICE_MD))
    } else if eq_str(&v, "prose") {
        Some(("prose", PROSE_VOICE_MD))
    } else {
        None
    }
}

/// Load a bundled profile by name.
pub fn load_bundled(name: &str) -> (r: Result<Voice, VoiceError>)
    ensures
        match r {
            Ok(v) => is_bundled_voice(v, name@),
            Err(e) => bundled(name@) is None && (e matches VoiceError::UnknownProfile { name: n, known }
                && n@ == name@ && known@.len() == 2 && known@[0]@ == "terse"@ && known@[1]@ == "prose"@),
        },
{
    match bundled_by_name(name) {
        Some((canonical, body)) => Ok(
            Voice {
                system_prompt: crate::text::string_of(&trim_exec(&chars_of(body))),
                is_custom: false,
                bundled_name: Some(canonical),
            },
        ),
        None => Err(VoiceError::UnknownProfile { name: String::from_str(name), known: bundled_names() }),
    }
}

/// The bundled `terse` voice, the default when nothing is configured.
pub fn default() -> (r: Voice)
    ensures
        is_bundled_voice(r, "terse"@),
{
    let v = load_bundled("terse");
    proof {
        reveal_strlit("terse");
        reveal_strlit("default");
        assert("terse"@ != "default"@) by {
            assert("terse"@.len() != "default"@.len());
        }
    }
    match v {
        Ok(v) => v,
        Err(_) => {
            proof {
                assert(bundled("terse"@) is Some);
            }
            Voice { system_prompt: String::new(), is_custom: false, bundled_name: None }
        },
    }
}

/// A voice file's contents made into a voice: trimmed, and refused when
/// blank. `contents` is what reading the file gave, or the I/O error.
pub fn load_from_contents(path: &str, contents: Result<String, String>) -> (r: Result<Voice, VoiceError>)
    ensures
        match contents {
            Err(m) => r matches Err(VoiceError::Io { path: p, message }) && p@ == path@ && message@ == m@,
            Ok(c) => if trim(c@).len() == 0 {
                r matches Err(VoiceError::Empty { path: p }) && p@ == path@
            } else {
                r matches Ok(v) && v.is_custom && v.bundled_name is None && v.system_prompt@ == trim(c@)
            },
        },
{
    match contents {
        Err(m) => Err(VoiceError::Io { path: String::from_str(path), message: m }),
        Ok(c) => {
            let t = trim_exec(&chars_of(c.as_str()));
            if t.len() == 0 {
                Err(VoiceError::Empty { path: String::from_str(path) })
            } else {
                Ok(Voice { system_prompt: crate::text::string_of(&t), is_custom: true, bundled_name: None })
            }
        },
    }
}

/// Where the voice of a run comes from.
#[derive(Debug, PartialEq, Eq)]
pub enum VoiceSource {
    /// A bundled profile, by the name given.
    Bundled(String),
    /// A voice file.
    File(String),
    /// Nothing configured: the bundled `terse` voice.
    Default,
}

/// `--voice` wins (a bundled name before a path), then the TOML path,
/// then the TOML profile, then the default.
pub fn source_of(cli_value: Option<&str>, toml_path: Option<&str>, toml_profile: Option<&str>) -> (r: VoiceSource)
    ensures
        match cli_value {
            Some(v) => if bundled(v@) is Some {
                r matches VoiceSource::Bundled(n) && n@ == v@
            } else {
                r matches VoiceSource::File(p) && p@ == v@
            },
            None => match toml_path {
                Some(p) => r matches VoiceSource::File(q) && q@ == p@,
                None => match toml_profile {
                    Some(n) => r matches VoiceSource::Bundled(m) && m@ == n@,
                    None => r is Default,
                },
            },
        },
{
    match cli_value {
        Some(v) => {
            if bundled_by_name(v).is_some() {
                VoiceSource::Bundled(String::from_str(v))
            } else {
                VoiceSource::File(String::from_str(v))
            }
        },
        None => match toml_path {
            Some(p) => VoiceSource::File(String::from_str(p)),
            None => match toml_profile {
                Some(n) => VoiceSource::Bundled(String::from_str(n)),
                None => VoiceSource::Default,
            },
        },
    }
}

/// Resolve the voice of a run. `read_file` reads a voice file, giving its
/// contents or the I/O error's message.
pub fn resolve<F: Fn(&str) -> Result<String, String>>(
    cli_value: Option<&str>,
    toml_path: Option<&str>,
    toml_profile: Option<&str>,
    read_file: F,
) -> (r: Result<Voice, VoiceError>)
    requires
        forall|p: &str| read_file.requires((p,)),
    ensures
        match cli_value {
            Some(v) => if bundled(v@) is Some {
                r matches Ok(x) && is_bundled_voice(x, v@)
            } else {
                exists|c: Result<String, String>| #[trigger] read_file.ensures((v,), c) && file_voice(v@, c, r)
            },
            None => match toml_path {
                Some(p) => exists|c: Result<String, String>| #[trigger] read_file.ensures((p,), c) && file_voice(p@, c, r),
                None => match toml_profile {
                    Some(n) => match r {
                        Ok(x) => is_bundled_voice(x, n@),
                        Err(e) => bundled(n@) is None && e is UnknownProfile,
                    },
                    None => r matches Ok(x) && is_bundled_voice(x, "terse"@),
                },
            },
        },
{
    match cli_value {
        Some(v) => {
            if bundled_by_name(v).is_some() {
                return load_bundled(v);
            }
            let c = read_file(v);
            load_from_contents(v, c)
        },
        None => match toml_path {
            Some(p) => {
                let c = read_file(p);
                load_from_contents(p, c)
            },
            None => match toml_profile {
                Some(n) => load_bundled(n),
                None => Ok(default()),
            },
        },
    }
}

/// `r` is what a voice file at `path` with contents `c` gives.
pub open spec fn file_voice(path: Seq<char>, c: Result<String, String>, r: Result<Voice, VoiceError>) -> bool {
    match c {
        Err(m) => r matches Err(VoiceError::Io { path: p, message }) && p@ == path && message@ == m@,
        Ok(body) => if trim(body@).len() == 0 {
            r matches Err(VoiceError::Empty { path: p }) && p@ == path
        } else {
            r matches Ok(v) && v.is_custom && v.bundled_name is None && v.system_prompt@ == trim(body@)
        },
    }
}

} // verus!

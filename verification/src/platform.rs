//! Platform selection and the environment-derived search configuration.
//!
//! All platform-conditional behavior of the resolver is driven by a single
//! `Platform` value chosen once by the host at startup, together with a
//! `SearchConfig` holding the parsed, environment-derived data (the
//! recognized executable extensions and the sandbox executable suffix).

use vstd::prelude::*;

verus! {

/// The family of platform conventions the resolver follows.
#[derive(Clone, Copy, PartialEq, Eq, Structural, Debug)]
pub enum Platform {
    /// Unix-like: `/` separates components, `:` delimits path lists,
    /// no extension expansion, execute permission is checked.
    Unix,
    /// Windows-like: `\` or `/` separate components, `;` delimits path
    /// lists, executable extensions are expanded, file names compare
    /// case-insensitively, no execute-permission concept.
    Windows,
    /// A sandboxed (WASI-like) environment: Unix path conventions, plus a
    /// single canonical executable suffix tried besides the bare name.
    Sandbox,
}

/// The primary separator character used when the resolver builds paths.
pub open spec fn sep_char(p: Platform) -> char {
    match p {
        Platform::Windows => '\\',
        _ => '/',
    }
}

/// Whether `c` separates path components on platform `p`.
pub open spec fn is_sep_char(p: Platform, c: char) -> bool {
    c == '/' || (p == Platform::Windows && c == '\\')
}

/// The delimiter between entries of a search-path list string.
pub open spec fn list_delimiter(p: Platform) -> char {
    match p {
        Platform::Windows => ';',
        _ => ':',
    }
}

/// Whether file names on `p` compare case-insensitively, which is what makes
/// case correction meaningful.
pub open spec fn case_insensitive(p: Platform) -> bool {
    p == Platform::Windows
}

impl Platform {
    /// The primary separator character used when building paths.
    pub fn separator(self) -> (c: char)
        ensures
            c == sep_char(self),
    {
        match self {
            Platform::Windows => '\\',
            _ => '/',
        }
    }

    /// Whether `c` separates path components.
    pub fn is_separator(self, c: char) -> (r: bool)
        ensures
            r == is_sep_char(self, c),
    {
        c == '/' || (matches!(self, Platform::Windows) && c == '\\')
    }

    /// The delimiter between entries of a search-path list string.
    pub fn delimiter(self) -> (c: char)
        ensures
            c == list_delimiter(self),
    {
        match self {
            Platform::Windows => ';',
            _ => ':',
        }
    }

    /// Whether file names compare case-insensitively on this platform.
    pub fn is_case_insensitive(self) -> (r: bool)
        ensures
            r == case_insensitive(self),
    {
        matches!(self, Platform::Windows)
    }
}

/// The predicate a declared extension entry must satisfy: nonempty and
/// beginning with a dot.
pub open spec fn ext_entry_ok() -> spec_fn(Seq<char>) -> bool {
    |e: Seq<char>| e.len() >= 1 && e[0] == '.'
}

/// The recognized executable extensions declared by a semicolon-delimited
/// environment value: its well-formed entries, in declared order. Malformed
/// entries (not beginning with a dot) are dropped, never an error.
pub open spec fn spec_parse_ext_list(raw: Seq<char>) -> Seq<Seq<char>> {
    crate::path::spec_split(raw, ';').filter(ext_entry_ok())
}

/// Parses a semicolon-delimited extension-list value, keeping the entries
/// that begin with a dot, in declared order, and silently dropping the rest.
pub fn parse_ext_list(raw: &str) -> (r: Vec<String>)
    ensures
        r.deep_view() == spec_parse_ext_list(raw@),
        forall|i: int|
            0 <= i < r@.len() ==> (#[trigger] r@[i])@.len() >= 1 && r@[i]@[0] == '.',
{
    broadcast use vstd::seq_lib::group_filter_ensures;

    let pieces = crate::path::split_list(raw, ';');
    let mut kept: Vec<String> = Vec::new();
    let mut i: usize = 0;
    proof {
        assert(pieces.deep_view().take(0) =~~= Seq::<Seq<char>>::empty());
        assert(kept.deep_view() =~~= Seq::<Seq<char>>::empty().filter(ext_entry_ok()));
    }
    while i < pieces.len()
        invariant
            i <= pieces@.len(),
            pieces.deep_view() == spec_parse_ext_list_input(raw@),
            kept.deep_view() == pieces.deep_view().take(i as int).filter(ext_entry_ok()),
        decreases pieces@.len() - i,
    {
        let ghost prefix = pieces.deep_view().take(i as int);
        let piece = &pieces[i];
        let n = piece.as_str().unicode_len();
        if n >= 1 && piece.as_str().get_char(0) == '.' {
            let ghost old_kept = kept.deep_view();
            kept.push(piece.clone());
            proof {
                assert(ext_entry_ok()(piece@));
                assert(kept.deep_view() =~~= old_kept.push(piece@));
            }
        } else {
            proof {
                assert(!ext_entry_ok()(piece@));
            }
        }
        proof {
            assert(pieces.deep_view().take(i + 1) =~~= prefix.push(pieces.deep_view()[i as int]));
            prefix.lemma_filter_push(pieces.deep_view()[i as int], ext_entry_ok());
            assert(pieces.deep_view()[i as int] == piece@);
        }
        i += 1;
    }
    proof {
        assert(pieces.deep_view().take(i as int) =~~= pieces.deep_view());
        assert forall|k: int| 0 <= k < kept@.len() implies (#[trigger] kept@[k])@.len() >= 1
            && kept@[k]@[0] == '.' by {
            pieces.deep_view().lemma_filter_pred(ext_entry_ok(), k);
            assert(kept.deep_view()[k] == kept@[k]@);
        }
    }
    kept
}

/// A helper naming the split that `spec_parse_ext_list` filters, so the
/// loop invariant above can speak of it.
pub open spec fn spec_parse_ext_list_input(raw: Seq<char>) -> Seq<Seq<char>> {
    crate::path::spec_split(raw, ';')
}

/// The environment-derived configuration of one resolution: the platform,
/// the recognized executable extensions (Windows), and the canonical
/// executable suffix (sandbox). The host builds it once at startup and
/// passes it down.
pub struct SearchConfig {
    /// The platform whose conventions the resolver follows.
    pub platform: Platform,
    /// Recognized executable extensions in declared order, each beginning
    /// with a dot. Consulted only on Windows.
    pub exts: Vec<String>,
    /// The canonical executable suffix, without its dot. Consulted only in
    /// the sandbox.
    pub exe_suffix: String,
}

impl SearchConfig {
    /// Every declared extension entry is nonempty and begins with a dot.
    pub open spec fn wf(&self) -> bool {
        forall|i: int|
            0 <= i < self.exts@.len() ==> (#[trigger] self.exts@[i])@.len() >= 1
                && self.exts@[i]@[0] == '.'
    }

    /// The declared extensions as sequences of characters.
    pub open spec fn exts_view(&self) -> Seq<Seq<char>> {
        self.exts.deep_view()
    }

    /// The configuration of a Unix-like platform.
    pub fn unix() -> (r: SearchConfig)
        ensures
            r.platform == Platform::Unix,
            r.wf(),
    {
        SearchConfig { platform: Platform::Unix, exts: Vec::new(), exe_suffix: String::new() }
    }

    /// The configuration of a Windows-like platform, with the recognized
    /// extensions parsed from the given environment value.
    pub fn windows(raw_ext_list: &str) -> (r: SearchConfig)
        ensures
            r.platform == Platform::Windows,
            r.wf(),
            r.exts_view() == spec_parse_ext_list(raw_ext_list@),
    {
        SearchConfig {
            platform: Platform::Windows,
            exts: parse_ext_list(raw_ext_list),
            exe_suffix: String::new(),
        }
    }

    /// The configuration of a sandboxed platform with the given canonical
    /// executable suffix (without its dot).
    pub fn sandbox(exe_suffix: &str) -> (r: SearchConfig)
        ensures
            r.platform == Platform::Sandbox,
            r.wf(),
            r.exe_suffix@ == exe_suffix@,
    {
        SearchConfig {
            platform: Platform::Sandbox,
            exts: Vec::new(),
            exe_suffix: String::from_str(exe_suffix),
        }
    }
}

} // verus!

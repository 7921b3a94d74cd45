use vstd::prelude::*;

use crate::paths::{extension_of, file_name, file_name_of, split_extension};
use crate::text::{
    ascii_lower, eq_ignore_ascii_case, eq_ignore_case, split_on, split_pieces, to_ascii_lowercase,
    trim, trimmed,
};

verus! {

/// Maps a file path to the name of the destination subfolder it belongs in.
/// The answer depends on the engine and the path alone.
pub trait RuleEngine {
    /// The folder that `classify` gives for a path.
    spec fn spec_classify(&self, file: Seq<char>) -> Seq<char>;

    fn classify(&self, file: &str) -> (r: String)
        ensures
            r@ == self.spec_classify(file@),
    ;
}

/// The extension of a file whose name is `name`, if it has a name and the
/// name has one.
pub open spec fn extension_of_file(name: Option<Seq<char>>) -> Option<Seq<char>> {
    match name {
        Some(n) => extension_of(n),
        None => None,
    }
}

/// The view of an optional string.
pub open spec fn opt_view(o: Option<&str>) -> Option<Seq<char>> {
    match o {
        Some(s) => Some(s@),
        None => None,
    }
}

/// The folder for a file name under the extension rule: its lower-cased
/// extension, or `no_extension`.
pub open spec fn extension_folder(name: Option<Seq<char>>) -> Seq<char> {
    match extension_of_file(name) {
        Some(e) => ascii_lower(e),
        None => "no_extension"@,
    }
}

/// The extension of a file name, lower-cased; `None` when it has none.
fn lower_extension(name: Option<&str>) -> (r: Option<String>)
    ensures
        r matches Some(e) ==> extension_of_file(opt_view(name)) matches Some(x) && e@
            == ascii_lower(x),
        r is None ==> extension_of_file(opt_view(name)) is None,
{
    match name {
        Some(n) => {
            let (_stem, ext) = split_extension(n);
            match ext {
                Some(e) => Some(to_ascii_lowercase(e.as_str())),
                None => None,
            }
        },
        None => None,
    }
}

/// Sorts files by their extension, lower-cased; files without one go to
/// `no_extension`.
#[derive(Debug, Clone, Copy)]
pub struct ExtensionRuleEngine;

impl ExtensionRuleEngine {
    /// The folder for a file of the given name (none when the path has no
    /// file name).
    pub fn classify_file_name(&self, name: Option<&str>) -> (r: String)
        ensures
            r@ == extension_folder(opt_view(name)),
    {
        match lower_extension(name) {
            Some(e) => e,
            None => String::from_str("no_extension"),
        }
    }
}

impl RuleEngine for ExtensionRuleEngine {
    open spec fn spec_classify(&self, file: Seq<char>) -> Seq<char> {
        extension_folder(file_name_of(file))
    }

    fn classify(&self, file: &str) -> (r: String) {
        let name = file_name(file);
        match &name {
            Some(n) => self.classify_file_name(Some(n.as_str())),
            None => self.classify_file_name(None),
        }
    }
}

/// One user rule: the extensions listed in `pattern`, separated by `|`,
/// go to the folder `target_dir`.
#[derive(Debug, Clone)]
pub struct CustomRule {
    pub pattern: String,
    pub target_dir: String,
}

/// An ordered list of rules; the first rule that lists a file's extension
/// decides its folder, and `fallback` takes the rest.
#[derive(Debug, Clone)]
pub struct CustomRuleEngine {
    pub rules: Vec<CustomRule>,
    pub fallback: String,
}

/// One token of a pattern names the extension `ext`, up to white space at
/// its ends and ASCII case.
pub open spec fn token_hits(token: Seq<char>, ext: Seq<char>) -> bool {
    eq_ignore_case(trimmed(token), ext)
}

/// Some token of `pattern` names the extension `ext`.
pub open spec fn pattern_hits(pattern: Seq<char>, ext: Seq<char>) -> bool {
    exists|k: int|
        0 <= k < split_on(pattern, '|').len() && token_hits(
            #[trigger] split_on(pattern, '|')[k],
            ext,
        )
}

/// The target of the first rule whose pattern names `ext`, else `fallback`.
pub open spec fn pick_folder(rules: Seq<CustomRule>, fallback: Seq<char>, ext: Seq<char>) -> Seq<
    char,
>
    decreases rules.len(),
{
    if rules.len() == 0 {
        fallback
    } else if pattern_hits(rules[0].pattern@, ext) {
        rules[0].target_dir@
    } else {
        pick_folder(rules.drop_first(), fallback, ext)
    }
}

/// The lower-cased extension of a file name, empty when there is none.
pub open spec fn extension_key(name: Option<Seq<char>>) -> Seq<char> {
    match extension_of_file(name) {
        Some(e) => ascii_lower(e),
        None => Seq::<char>::empty(),
    }
}

/// Whether some token of `pattern` names `ext`.
pub fn pattern_matches(pattern: &str, ext: &str) -> (r: bool)
    ensures
        r == pattern_hits(pattern@, ext@),
{
    let tokens = split_pieces(pattern, '|');
    let mut k: usize = 0;
    while k < tokens.len()
        invariant
            tokens@.len() == split_on(pattern@, '|').len(),
            forall|j: int| 0 <= j < tokens@.len() ==> #[trigger] tokens@[j]@ == split_on(pattern@, '|')[j],
            k <= tokens@.len(),
            forall|j: int| 0 <= j < k ==> !token_hits(#[trigger] split_on(pattern@, '|')[j], ext@),
        decreases tokens@.len() - k,
    {
        let t = trim(tokens[k].as_str());
        if eq_ignore_ascii_case(t.as_str(), ext) {
            assert(token_hits(split_on(pattern@, '|')[k as int], ext@));
            return true;
        }
        k = k + 1;
    }
    false
}

impl CustomRuleEngine {
    /// The folder for a file whose lower-cased extension is `ext` (empty
    /// when it has none).
    pub fn classify_extension(&self, ext: &str) -> (r: String)
        ensures
            r@ == pick_folder(self.rules@, self.fallback@, ext@),
    {
        let mut i: usize = 0;
        assert(self.rules@.skip(0) =~= self.rules@);
        while i < self.rules.len()
            invariant
                i <= self.rules@.len(),
                pick_folder(self.rules@, self.fallback@, ext@) == pick_folder(
                    self.rules@.skip(i as int),
                    self.fallback@,
                    ext@,
                ),
            decreases self.rules@.len() - i,
        {
            let rule = &self.rules[i];
            assert(self.rules@.skip(i as int)[0] == self.rules@[i as int]);
            if pattern_matches(rule.pattern.as_str(), ext) {
                return rule.target_dir.clone();
            }
            assert(self.rules@.skip(i as int).drop_first() =~= self.rules@.skip(i + 1));
            i = i + 1;
        }
        assert(self.rules@.skip(i as int) =~= Seq::<CustomRule>::empty());
        self.fallback.clone()
    }

    /// The folder for a file of the given name (none when the path has no
    /// file name).
    pub fn classify_file_name(&self, name: Option<&str>) -> (r: String)
        ensures
            r@ == pick_folder(self.rules@, self.fallback@, extension_key(opt_view(name))),
    {
        match lower_extension(name) {
            Some(e) => self.classify_extension(e.as_str()),
            None => {
                let none = String::new();
                self.classify_extension(none.as_str())
            },
        }
    }
}

impl RuleEngine for CustomRuleEngine {
    open spec fn spec_classify(&self, file: Seq<char>) -> Seq<char> {
        pick_folder(self.rules@, self.fallback@, extension_key(file_name_of(file)))
    }

    fn classify(&self, file: &str) -> (r: String) {
        let name = file_name(file);
        match &name {
            Some(n) => self.classify_file_name(Some(n.as_str())),
            None => self.classify_file_name(None),
        }
    }
}

impl<T: RuleEngine + ?Sized> RuleEngine for Box<T> {
    open spec fn spec_classify(&self, file: Seq<char>) -> Seq<char> {
        (**self).spec_classify(file)
    }

    fn classify(&self, file: &str) -> (r: String) {
        (**self).classify(file)
    }
}

impl<T: RuleEngine + ?Sized> RuleEngine for std::sync::Arc<T> {
    open spec fn spec_classify(&self, file: Seq<char>) -> Seq<char> {
        (**self).spec_classify(file)
    }

    fn classify(&self, file: &str) -> (r: String) {
        (**self).classify(file)
    }
}

} // verus!

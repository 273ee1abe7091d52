use vstd::prelude::*;

verus! {

/// The language selector of a scan. `Java` can be selected but has no
/// extension mapping configured yet: choosing it is a configuration
/// error.
#[derive(Debug, Clone, Copy, PartialEq, Eq, Structural)]
pub enum Lang {
    Csharp,
    Python,
    JS,
    Java,
}

/// What a scan is asked to do: the root of the repository to walk and
/// the language whose files to read.
#[derive(Debug, PartialEq, Eq)]
pub struct Command {
    pub repo: String,
    pub lang: Lang,
}

/// A fatal configuration error: no scanning starts after one.
#[derive(Debug, Clone, Copy, PartialEq, Eq, Structural)]
pub enum ConfigError {
    /// The selected language has no configured extension mapping.
    UnimplementedLanguage,
    /// The repository root does not exist.
    MissingRepoPath,
}

/// The file extension configured for each language.
pub open spec fn ext_for_lang(lang: Lang) -> Option<Seq<char>> {
    match lang {
        Lang::Csharp => Option::Some(seq!['c', 's']),
        Lang::Python => Option::Some(seq!['p', 'y']),
        Lang::JS => Option::Some(seq!['j', 's']),
        Lang::Java => Option::None,
    }
}

/// Maps a language to its configured file extension.
pub fn resolve_extension(lang: Lang) -> (r: Option<String>)
    ensures
        match r {
            Option::Some(e) => ext_for_lang(lang) == Option::Some(e@),
            Option::None => ext_for_lang(lang) is None,
        },
{
    match lang {
        Lang::Csharp => {
            let e = String::from_str("cs");
            proof {
                reveal_strlit("cs");
                assert("cs"@ =~= seq!['c', 's']);
            }
            Option::Some(e)
        },
        Lang::Python => {
            let e = String::from_str("py");
            proof {
                reveal_strlit("py");
                assert("py"@ =~= seq!['p', 'y']);
            }
            Option::Some(e)
        },
        Lang::JS => {
            let e = String::from_str("js");
            proof {
                reveal_strlit("js");
                assert("js"@ =~= seq!['j', 's']);
            }
            Option::Some(e)
        },
        Lang::Java => Option::None,
    }
}

/// Relies on std::path::Path::exists: reports whether the path names
/// anything on the file system at the time of the call. The answer
/// depends on the state of the disk, so nothing is promised of it.
#[verifier::external_body]
pub fn path_exists(repo: &String) -> bool {
    std::path::Path::new(repo.as_str()).exists()
}

/// Decides the outcome of validation once the disk has answered for a
/// language that is mapped: an existing root passes the extension
/// through, a missing root is the fatal path error.
pub fn root_outcome(extension: String, root_exists: bool) -> (r: Result<String, ConfigError>)
    ensures
        root_exists ==> (r matches Result::Ok(e) && e == extension),
        !root_exists ==> r == Result::<String, ConfigError>::Err(ConfigError::MissingRepoPath),
{
    if root_exists {
        Result::Ok(extension)
    } else {
        Result::Err(ConfigError::MissingRepoPath)
    }
}

/// Validates a command before any scanning: an unmapped language is
/// refused first; then a repository root that the file system does not
/// show is refused. On success, the resolved extension comes back.
/// Whether the root exists is the disk's answer, so the missing-path
/// error is characterized only as far as the configuration goes.
pub fn validate_command(cmd: &Command) -> (r: Result<String, ConfigError>)
    ensures
        r == Result::<String, ConfigError>::Err(ConfigError::UnimplementedLanguage) <==> ext_for_lang(
            cmd.lang,
        ) is None,
        r matches Result::Ok(e) ==> ext_for_lang(cmd.lang) == Option::Some(e@),
        r == Result::<String, ConfigError>::Err(ConfigError::MissingRepoPath) ==> ext_for_lang(
            cmd.lang,
        ) is Some,
{
    match resolve_extension(cmd.lang) {
        Option::Some(ext) => root_outcome(ext, path_exists(&cmd.repo)),
        Option::None => Result::Err(ConfigError::UnimplementedLanguage),
    }
}

} // verus!

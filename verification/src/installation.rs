//! Where the programs of language servers come from: packages and releases.

use vstd::prelude::*;
use vstd::string::*;

verus! {

/// A version of the program of a language server, and where it can be had.
#[derive(Debug, PartialEq, Eq)]
pub struct GitHubLspBinaryVersion {
    pub name: String,
    pub url: String,
}

/// What is known of a package: the version that is tagged as the latest, and all versions in
/// the order in which they appeared.
#[derive(Debug, PartialEq, Eq)]
pub struct NpmInfo {
    pub latest: Option<String>,
    pub versions: Vec<String>,
}

/// A release, and the files that belong to it.
#[derive(Debug, PartialEq, Eq)]
pub struct GithubRelease {
    pub name: String,
    pub assets: Vec<GithubReleaseAsset>,
}

/// A file that belongs to a release.
#[derive(Debug, PartialEq, Eq)]
pub struct GithubReleaseAsset {
    pub name: String,
    pub browser_download_url: String,
}

/// A package without versions.
#[derive(Debug, PartialEq, Eq)]
pub struct NoVersionFound {
    pub message: String,
}

/// The newest version of a package.
pub open spec fn newest_version(info: NpmInfo) -> Option<String> {
    match info.latest {
        Some(latest) => Some(latest),
        None => if info.versions@.len() > 0 {
            Some(info.versions@.last())
        } else {
            None
        },
    }
}

/// The newest version of a package: the one that is tagged as such, or else the last of all.
pub fn npm_package_latest_version(name: &str, info: NpmInfo) -> (version: Result<
    String,
    NoVersionFound,
>)
    ensures
        match newest_version(info) {
            Some(newest) => version == Ok::<String, NoVersionFound>(newest),
            None => version matches Err(error) && error.message@
                == "no version found for npm package "@ + name@,
        },
{
    match info.latest {
        Some(latest) => Ok(latest),
        None => {
            let mut versions: Vec<String> = info.versions;
            match versions.pop() {
                Some(version) => Ok(version),
                None => {
                    let mut message: String = "no version found for npm package ".to_string();
                    message.append(name);
                    Err(NoVersionFound { message })
                },
            }
        },
    }
}

/// The texts of some strings.
pub open spec fn arguments(strings: Seq<String>) -> Seq<Seq<char>> {
    Seq::new(strings.len(), |index: int| strings[index]@)
}

/// With what the package manager is asked about a package.
pub fn npm_info_arguments(name: &str) -> (args: Vec<String>)
    ensures
        arguments(args@) == seq!["info"@, name@, "--json"@],
{
    let mut args: Vec<String> = Vec::new();
    args.push("info".to_string());
    args.push(name.to_string());
    args.push("--json".to_string());
    assert(arguments(args@) =~= seq!["info"@, name@, "--json"@]);
    args
}

/// Some packages as the package manager is told of them: each with its version.
pub open spec fn package_arguments(packages: Seq<(String, String)>) -> Seq<Seq<char>> {
    Seq::new(packages.len(), |index: int| packages[index].0@ + "@"@ + packages[index].1@)
}

/// With what the package manager is told to install some packages into a directory: what it is told
/// before the directory, and what behind it.
pub fn npm_install_arguments(packages: &[(String, String)]) -> (args: (Vec<String>, Vec<String>))
    ensures
        arguments(args.0@) == seq!["install"@, "--prefix"@],
        arguments(args.1@) == package_arguments(packages@),
{
    let mut head: Vec<String> = Vec::new();
    head.push("install".to_string());
    head.push("--prefix".to_string());
    assert(arguments(head@) =~= seq!["install"@, "--prefix"@]);
    let mut args: Vec<String> = Vec::new();
    let mut index: usize = 0;
    assert(arguments(args@) =~= package_arguments(packages@).take(0));
    while index < packages.len()
        invariant
            index <= packages@.len(),
            arguments(args@) == package_arguments(packages@).take(index as int),
        decreases packages@.len() - index,
    {
        let ghost before = args@;
        let mut package: String = packages[index].0.clone();
        package.append("@");
        package.append(packages[index].1.as_str());
        args.push(package);
        index += 1;
        proof {
            assert(arguments(args@) =~= arguments(before).push(package@));
            assert(package_arguments(packages@).take(index as int) =~= package_arguments(
                packages@,
            ).take(index - 1).push(package@));
        }
    }
    assert(package_arguments(packages@).take(index as int) =~= package_arguments(packages@));
    (head, args)
}

/// Where the latest release of a repository is described.
pub fn latest_release_url(repo_name_with_owner: &str) -> (url: String)
    ensures
        url@ == "https://api.github.com/repos/"@ + repo_name_with_owner@ + "/releases/latest"@,
{
    let mut url: String = "https://api.github.com/repos/".to_string();
    url.append(repo_name_with_owner);
    url.append("/releases/latest");
    url
}

/// The newest version of a package is the one that is tagged as such, whatever other versions there
/// are; without a tag it is the one that appeared last, and there is none only without versions.
pub proof fn law_the_newest_version(info: NpmInfo)
    ensures
        info.latest is Some ==> newest_version(info) == info.latest,
        info.latest is None && info.versions@.len() > 0 ==> newest_version(info) == Some(
            info.versions@[info.versions@.len() - 1],
        ),
        newest_version(info) is None <==> info.latest is None && info.versions@ =~= Seq::empty(),
{
}

/// Every package is named to the package manager, in order, with its own version behind an at sign.
pub proof fn law_every_package_is_named(packages: Seq<(String, String)>)
    ensures
        package_arguments(packages).len() == packages.len(),
        forall|index: int|
            #![trigger packages[index]]
            0 <= index < packages.len() ==> package_arguments(packages)[index]
                =~= packages[index].0@.push('@') + packages[index].1@,
{
    reveal_strlit("@");
}

} // verus!

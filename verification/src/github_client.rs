use vstd::prelude::*;
use vstd::string::StringExecFns;

verus! {

/// The address under which the code host keeps what it knows of a repository.
pub open spec fn repository_address(owner: Seq<char>, repository: Seq<char>) -> Seq<char> {
    "https://api.github.com/repos/"@ + owner + "/"@ + repository
}

/// The address at which the code host serves the file `path` of a repository.
pub open spec fn content_address(owner: Seq<char>, repository: Seq<char>, path: Seq<char>) -> Seq<
    char,
> {
    repository_address(owner, repository) + "/contents/"@ + path
}

/// The address at which the code host serves the license of a repository.
pub open spec fn license_address(owner: Seq<char>, repository: Seq<char>) -> Seq<char> {
    repository_address(owner, repository) + "/license"@
}

/// Computes `repository_address`.
pub fn repository_url(owner: &str, repository: &str) -> (r: String)
    ensures
        r@ == repository_address(owner@, repository@),
{
    let mut url = String::from_str("https://api.github.com/repos/");
    url.append(owner);
    url.append("/");
    url.append(repository);
    url
}

/// Computes `content_address`.
pub fn content_url(owner: &str, repository: &str, path: &str) -> (r: String)
    ensures
        r@ == content_address(owner@, repository@, path@),
{
    let mut url = repository_url(owner, repository);
    url.append("/contents/");
    url.append(path);
    url
}

/// Computes `license_address`.
pub fn license_url(owner: &str, repository: &str) -> (r: String)
    ensures
        r@ == license_address(owner@, repository@),
{
    let mut url = repository_url(owner, repository);
    url.append("/license");
    url
}

} // verus!

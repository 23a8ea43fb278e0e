//! The local checkout: what kind of workspace it is, which server it
//! belongs to and which project it holds.

use crate::remote::{endpoint_of, is_supported, RemoteEndpoint, RemoteUrl};
use crate::text::{
    first_word, first_word_str, join, join_strs, split, split_str, strip_prefix_all,
    strip_prefix_all_str, strip_suffix_all, strip_suffix_all_str, texts,
};
use vstd::prelude::*;

verus! {

/// The kind of workspace that the tool runs in.
#[derive(Clone, Copy, Debug, PartialEq, Eq, Structural)]
pub enum RepoType {
    /// A plain Git repository.
    Git,
    /// A checkout of many repositories under a manifest.
    Repo,
    /// A Git repository inside such a checkout.
    GitInRepo,
}

/// What is known of the local checkout, as mathematics.
pub struct RepoView {
    pub remote: RemoteEndpoint,
    pub repo_type: RepoType,
    pub project_name: Seq<char>,
}

/// What is known of the local checkout.
pub struct RepoInfo {
    pub remote_url: RemoteUrl,
    pub repo_type: RepoType,
    pub project_name: String,
}

impl View for RepoInfo {
    type V = RepoView;

    open spec fn view(&self) -> RepoView {
        RepoView {
            remote: self.remote_url@,
            repo_type: self.repo_type,
            project_name: self.project_name@,
        }
    }
}

/// Why the checkout cannot be used.
#[derive(Clone, Copy, Debug, PartialEq, Eq, Structural)]
pub enum ConfigError {
    /// The URL of the remote is too short to hold a server.
    NoRemote,
    /// The server is reached by a transport that is not supported.
    InvalidUrl,
}

/// The kind of a workspace, from whether it is a checkout of many
/// repositories and whether it is a Git work tree; none if it is neither.
pub open spec fn repo_type_of(is_repo: bool, is_git: bool) -> Option<RepoType> {
    if is_repo && is_git {
        Some(RepoType::GitInRepo)
    } else if is_repo {
        Some(RepoType::Repo)
    } else if is_git {
        Some(RepoType::Git)
    } else {
        None
    }
}

/// The directory whose Git configuration names the remote: that of the
/// manifest if there is one and the workspace is not plain Git, else the
/// current one.
pub open spec fn config_dir(repo_type: RepoType, manifest_dir: Seq<char>) -> Seq<char> {
    if repo_type == RepoType::Git || manifest_dir.len() == 0 {
        "."@
    } else {
        manifest_dir
    }
}

/// Whether a segment of a URL is one character of one byte. A server that
/// asks for credentials keeps its repositories under such a segment.
pub open spec fn is_marker(segment: Seq<char>) -> bool {
    segment.len() == 1 && (segment[0] as u32) < 0x80
}

/// The server in the URL of a remote: its first three segments, that is
/// scheme and host, and the fourth too if it is a marker. None if the URL
/// has fewer than three segments.
pub open spec fn remote_base(remote: Seq<char>) -> Option<Seq<char>> {
    let parts = split(remote, '/');
    if parts.len() < 3 {
        None
    } else if parts.len() > 3 && is_marker(parts[3]) {
        Some(join(parts.take(4), "/"@))
    } else {
        Some(join(parts.take(3), "/"@))
    }
}

/// The name of the project: the configured one without `.git` at its end;
/// if that is empty, what the URL of the origin holds behind the server
/// and before `.git`.
pub open spec fn project_name(url: Seq<char>, configured: Seq<char>, origin: Seq<char>) -> Seq<
    char,
> {
    let named = strip_suffix_all(configured, ".git"@);
    if named.len() > 0 {
        named
    } else {
        strip_prefix_all(strip_prefix_all(strip_suffix_all(origin, ".git"@), url), "/"@)
    }
}

/// What is known of a checkout of the given kind, from the URL that its
/// configuration gives for the remote, the project name that it gives, and
/// the URL that the current directory gives for its origin.
pub open spec fn discovered(
    repo_type: RepoType,
    remote: Seq<char>,
    configured: Seq<char>,
    origin: Seq<char>,
) -> Result<RepoView, ConfigError> {
    match remote_base(remote) {
        None => Err(ConfigError::NoRemote),
        Some(url) => if is_supported(url) {
            Ok(
                RepoView {
                    remote: endpoint_of(url),
                    repo_type,
                    project_name: project_name(url, configured, origin),
                },
            )
        } else {
            Err(ConfigError::InvalidUrl)
        },
    }
}

fn first(parts: &Vec<String>, n: usize) -> (r: Vec<String>)
    requires
        n <= parts.len(),
    ensures
        texts(r@) == texts(parts@).take(n as int),
{
    let mut out: Vec<String> = Vec::new();
    let mut i: usize = 0;
    assert(texts(out@) == texts(parts@).take(0));
    while i < n
        invariant
            i <= n <= parts.len(),
            texts(out@) == texts(parts@).take(i as int),
        decreases n - i,
    {
        let part = parts[i].clone();
        assert(texts(parts@).take(i + 1) == texts(parts@).take(i as int).push(part@));
        assert(texts(out@.push(part)) == texts(out@).push(part@));
        out.push(part);
        i += 1;
    }
    out
}

impl RepoInfo {
    /// The kind of the workspace.
    pub fn get_repo_type(is_repo: bool, is_git: bool) -> (r: Option<RepoType>)
        ensures
            r == repo_type_of(is_repo, is_git),
    {
        if is_repo && is_git {
            Some(RepoType::GitInRepo)
        } else if is_repo {
            Some(RepoType::Repo)
        } else if is_git {
            Some(RepoType::Git)
        } else {
            None
        }
    }

    /// The directory of the manifest, from what the multi-repository tool
    /// printed when asked for it: the first word of the output.
    pub fn get_repo_manifest_dir(output: &str) -> (r: String)
        ensures
            r@ == first_word(output@),
    {
        first_word_str(output)
    }

    /// The directory whose Git configuration names the remote.
    pub fn get_config_dir(repo_type: RepoType, manifest_dir: &str) -> (r: String)
        ensures
            r@ == config_dir(repo_type, manifest_dir@),
    {
        if repo_type == RepoType::Git || manifest_dir.unicode_len() == 0 {
            String::from_str(".")
        } else {
            String::from_str(manifest_dir)
        }
    }

    /// The server in the URL of the remote.
    pub fn guess_remote(remote: &str) -> (r: Option<String>)
        ensures
            match r {
                Some(url) => remote_base(remote@) == Some(url@),
                None => remote_base(remote@) is None,
            },
    {
        let parts = split_str(remote, '/');
        if parts.len() < 3 {
            return None;
        }
        // Authenticated URLs have one more segment of one letter.
        let marked = parts.len() > 3 && parts[3].as_str().unicode_len() == 1
            && (parts[3].as_str().get_char(0) as u32) < 0x80;
        let kept = if marked {
            first(&parts, 4)
        } else {
            first(&parts, 3)
        };
        Some(join_strs(&kept, "/"))
    }

    /// The name of the project.
    pub fn get_project_name(url: &str, configured: &str, origin: &str) -> (r: String)
        ensures
            r@ == project_name(url@, configured@, origin@),
    {
        let named = strip_suffix_all_str(configured, ".git");
        if named.as_str().unicode_len() > 0 {
            named
        } else {
            let bare = strip_suffix_all_str(origin, ".git");
            let path = strip_prefix_all_str(bare.as_str(), url);
            strip_prefix_all_str(path.as_str(), "/")
        }
    }

    /// What is known of a checkout of the given kind, from the URL of its
    /// remote, its configured project name and the URL of its origin.
    pub fn new(repo_type: RepoType, remote: &str, configured: &str, origin: &str) -> (r: Result<
        RepoInfo,
        ConfigError,
    >)
        ensures
            match r {
                Ok(info) => Ok::<RepoView, ConfigError>(info@),
                Err(e) => Err(e),
            } == discovered(repo_type, remote@, configured@, origin@),
            r matches Ok(info) ==> info.remote_url.wf(),
    {
        let url = match Self::guess_remote(remote) {
            Some(url) => url,
            None => return Err(ConfigError::NoRemote),
        };
        if !RemoteUrl::supports(url.as_str()) {
            return Err(ConfigError::InvalidUrl);
        }
        let project_name = Self::get_project_name(url.as_str(), configured, origin);
        Ok(RepoInfo { remote_url: RemoteUrl::new(url.as_str()), repo_type, project_name })
    }
}

} // verus!

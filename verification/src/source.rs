//! Source descriptors and the registry of sources.

use vstd::prelude::*;

verus! {

/// The wire format in which a source publishes its metadata.
#[derive(Clone, Copy, Debug, PartialEq, Eq, Structural)]
pub enum Format {
    /// A directory-style manifest of remote files.
    TreeListing,
    /// A pre-serialized binary list of catalog entries.
    MsgpackEntries,
}

/// A remote repository and a path within it.
#[derive(Clone, Copy, Debug, PartialEq, Eq)]
pub struct GitHubRepo {
    pub name: &'static str,
    pub path: &'static str,
}

/// A source descriptor: where the metadata lives, tagged with its format.
#[derive(Clone, Copy, Debug, PartialEq, Eq)]
pub enum Source {
    Api(GitHubRepo),
    MsgPack(GitHubRepo),
}

impl Source {
    /// A source published as a tree listing.
    pub fn api(name: &'static str, path: &'static str) -> (s: Self)
        ensures
            s == Source::Api(GitHubRepo { name, path }),
            s.format() == Format::TreeListing,
            s.repo().name == name,
            s.repo().path == path,
    {
        Source::Api(GitHubRepo { name, path })
    }

    /// A source published as msgpack entries.
    pub fn msgpack(name: &'static str, path: &'static str) -> (s: Self)
        ensures
            s == Source::MsgPack(GitHubRepo { name, path }),
            s.format() == Format::MsgpackEntries,
            s.repo().name == name,
            s.repo().path == path,
    {
        Source::MsgPack(GitHubRepo { name, path })
    }

    /// The format tag of this source.
    pub open spec fn format(self) -> Format {
        match self {
            Source::Api(_) => Format::TreeListing,
            Source::MsgPack(_) => Format::MsgpackEntries,
        }
    }

    /// The repository and path of this source.
    pub open spec fn repo(self) -> GitHubRepo {
        match self {
            Source::Api(r) => r,
            Source::MsgPack(r) => r,
        }
    }

    /// The format tag of this source.
    pub fn wire_format(&self) -> (f: Format)
        ensures
            f == self.format(),
    {
        match self {
            Source::Api(_) => Format::TreeListing,
            Source::MsgPack(_) => Format::MsgpackEntries,
        }
    }

    /// The repository and path of this source.
    pub fn location(&self) -> (r: GitHubRepo)
        ensures
            r == self.repo(),
    {
        match self {
            Source::Api(r) => *r,
            Source::MsgPack(r) => *r,
        }
    }
}

/// The registry that ships with the library, in its fixed order.
pub open spec fn builtin_registry() -> Seq<Source> {
    seq![
        Source::Api(GitHubRepo { name: "NotAwesome2/chatsounds", path: "sounds" }),
        Source::Api(
            GitHubRepo { name: "Metastruct/garrysmod-chatsounds", path: "sound/chatsounds/autoadd" },
        ),
        Source::Api(GitHubRepo { name: "PAC3-Server/chatsounds", path: "sounds/chatsounds" }),
        Source::MsgPack(GitHubRepo { name: "PAC3-Server/chatsounds-valve-games", path: "csgo" }),
        Source::MsgPack(GitHubRepo { name: "PAC3-Server/chatsounds-valve-games", path: "css" }),
        Source::MsgPack(GitHubRepo { name: "PAC3-Server/chatsounds-valve-games", path: "ep1" }),
        Source::MsgPack(GitHubRepo { name: "PAC3-Server/chatsounds-valve-games", path: "ep2" }),
        Source::MsgPack(GitHubRepo { name: "PAC3-Server/chatsounds-valve-games", path: "hl1" }),
        Source::MsgPack(GitHubRepo { name: "PAC3-Server/chatsounds-valve-games", path: "hl2" }),
        Source::MsgPack(GitHubRepo { name: "PAC3-Server/chatsounds-valve-games", path: "l4d" }),
        Source::MsgPack(GitHubRepo { name: "PAC3-Server/chatsounds-valve-games", path: "l4d2" }),
        Source::MsgPack(GitHubRepo { name: "PAC3-Server/chatsounds-valve-games", path: "portal" }),
        Source::MsgPack(GitHubRepo { name: "PAC3-Server/chatsounds-valve-games", path: "tf2" }),
    ]
}

/// Builds the registry that ships with the library. A caller may pass any
/// other list of sources to the pipeline instead.
pub fn builtin_sources() -> (sources: Vec<Source>)
    ensures
        sources@ == builtin_registry(),
{
    let games: &'static str = "PAC3-Server/chatsounds-valve-games";
    let mut sources: Vec<Source> = Vec::new();
    sources.push(Source::api("NotAwesome2/chatsounds", "sounds"));
    sources.push(Source::api("Metastruct/garrysmod-chatsounds", "sound/chatsounds/autoadd"));
    sources.push(Source::api("PAC3-Server/chatsounds", "sounds/chatsounds"));
    sources.push(Source::msgpack(games, "csgo"));
    sources.push(Source::msgpack(games, "css"));
    sources.push(Source::msgpack(games, "ep1"));
    sources.push(Source::msgpack(games, "ep2"));
    sources.push(Source::msgpack(games, "hl1"));
    sources.push(Source::msgpack(games, "hl2"));
    sources.push(Source::msgpack(games, "l4d"));
    sources.push(Source::msgpack(games, "l4d2"));
    sources.push(Source::msgpack(games, "portal"));
    sources.push(Source::msgpack(games, "tf2"));
    assert(sources@ =~= builtin_registry());
    sources
}

} // verus!

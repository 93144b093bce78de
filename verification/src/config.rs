//! What the proxy was asked to do.
use std::path::PathBuf;
use vstd::prelude::*;

verus! {

/// `std::path::PathBuf`, carried through and never looked into.
#[verifier::external_type_specification]
#[verifier::external_body]
pub struct ExPathBuf(PathBuf);

/// `PathBuf::clone`: the copy is the same path.
pub assume_specification[ <PathBuf as Clone>::clone ](path: &PathBuf) -> (r: PathBuf)
    ensures
        r == *path,
;

/// The settings of a proxy.
pub struct Args {
    /// Full path to the compositor's Wayland socket.
    pub upstream: Option<PathBuf>,
    /// Force all xdg toplevels to have the same app id.
    pub app_id: Option<String>,
    /// Prefix the app id instead of replacing it.
    pub prefix_app_id: bool,
    /// Force all xdg toplevels to have the same title.
    pub title: Option<String>,
    /// Prefix the title instead of replacing it.
    pub prefix_title: bool,
    /// Wayland interfaces to block.
    pub block: Vec<String>,
    /// Suppress warnings about unknown interface names.
    pub quiet: bool,
    /// Print debug messages.
    pub debug: bool,
    /// Full path for the new Wayland socket.
    pub downstream: PathBuf,
}

impl Clone for Args {
    fn clone(&self) -> (r: Self)
        ensures
            r@ == self@,
            r.upstream == self.upstream,
            r.quiet == self.quiet,
            r.debug == self.debug,
            r.downstream == self.downstream,
    {
        let r = Args {
            upstream: self.upstream.clone(),
            app_id: self.app_id.clone(),
            prefix_app_id: self.prefix_app_id,
            title: self.title.clone(),
            prefix_title: self.prefix_title,
            block: self.block.clone(),
            quiet: self.quiet,
            debug: self.debug,
            downstream: self.downstream.clone(),
        };
        assert(r@.block =~= self@.block);
        r
    }
}

/// The settings that say what becomes of a message.
pub struct Rules {
    pub app_id: Option<Seq<char>>,
    pub prefix_app_id: bool,
    pub title: Option<Seq<char>>,
    pub prefix_title: bool,
    pub block: Seq<Seq<char>>,
}

impl Rules {
    /// Whether the interface `name` is blocked.
    pub open spec fn blocks(self, name: Seq<char>) -> bool {
        self.block.contains(name)
    }
}

/// The texts of `list`.
pub open spec fn texts(list: Seq<String>) -> Seq<Seq<char>> {
    list.map_values(|s: String| s@)
}

impl View for Args {
    type V = Rules;

    open spec fn view(&self) -> Rules {
        Rules {
            app_id: crate::proto::text_of(self.app_id),
            prefix_app_id: self.prefix_app_id,
            title: crate::proto::text_of(self.title),
            prefix_title: self.prefix_title,
            block: texts(self.block@),
        }
    }
}

} // verus!

//! The page that browses a volume.
use vstd::prelude::*;
use crate::prefs::{cookie_attributes, view_mode_name, write_viewmode_cookie, ViewMode};
use crate::types::{BrowseAction, ClientMsg};

verus! {

/// Which volume the page shows.
#[derive(Clone, Copy, Debug, PartialEq, Eq, Structural)]
pub struct VolumePageProps {
    pub id: u64,
}

/// What the volume page keeps.
#[derive(Debug, PartialEq, Eq)]
pub struct VolumePage {
    /// Whether the server had answered the greeting when last heard.
    pub ready: bool,
    pub current_path: String,
    pub view_mode: ViewMode,
    /// `seq` of the last browse response taken in.
    pub last_browse_seq: u64,
    pub loading: bool,
}

/// What happens to the volume page.
#[derive(Debug, PartialEq, Eq)]
pub enum Msg {
    /// The shared state changed: whether the greeting was answered, and the
    /// `seq` of the latest browse response.
    ContextChanged { ready: bool, browse_seq: u64 },
    /// The page's address changed; `path` is its `path` query (or "/").
    LocationChanged { path: String },
    SetViewMode(ViewMode),
}

/// What the volume page asks for after a message.
#[derive(Debug, PartialEq, Eq)]
pub struct VolumePageUpdate {
    pub render: bool,
    pub request: Option<ClientMsg>,
    /// A cookie to write, remembering the view mode.
    pub cookie: Option<String>,
}

/// The request that lists `path` on volume `volume_id`.
pub open spec fn listing_of(volume_id: u64, path: String) -> ClientMsg {
    ClientMsg::Browse(BrowseAction::ListDirectory { volume_id, path })
}

impl VolumePage {
    /// The request that lists the page's current directory.
    pub fn request_listing(&self, props: &VolumePageProps) -> (r: ClientMsg)
        ensures
            r == listing_of(props.id, self.current_path),
    {
        ClientMsg::Browse(BrowseAction::ListDirectory { volume_id: props.id, path: self.current_path.clone() })
    }

    /// A fresh volume page at `path`: it asks for its listing at once if the
    /// server has answered the greeting, and shows the remembered view mode
    /// (the list by default).
    pub fn create(props: &VolumePageProps, ready: bool, browse_seq: u64, path: String, remembered: Option<ViewMode>) -> (r: (VolumePage, Option<ClientMsg>))
        ensures
            r.0.ready == ready,
            r.0.current_path == path,
            r.0.view_mode == (match remembered { Some(m) => m, None => ViewMode::List }),
            r.0.last_browse_seq == browse_seq,
            r.0.loading == ready,
            r.1 == (if ready { Some(listing_of(props.id, path)) } else { None }),
    {
        let view_mode = match remembered {
            Some(m) => m,
            None => ViewMode::List,
        };
        let page = VolumePage { ready, current_path: path, view_mode, last_browse_seq: browse_seq, loading: ready };
        let request = if ready { Some(page.request_listing(props)) } else { None };
        (page, request)
    }

    /// The page now shows another volume: ask for its listing if ready.
    pub fn changed(&mut self, props: &VolumePageProps) -> (r: Option<ClientMsg>)
        ensures
            final(self).ready == old(self).ready,
            final(self).current_path == old(self).current_path,
            final(self).view_mode == old(self).view_mode,
            final(self).last_browse_seq == old(self).last_browse_seq,
            final(self).loading == (old(self).ready || old(self).loading),
            r == (if old(self).ready { Some(listing_of(props.id, old(self).current_path)) } else { None }),
    {
        if self.ready {
            self.loading = true;
            Some(self.request_listing(props))
        } else {
            None
        }
    }

    /// Reacts to a message: a new browse response ends the loading; the
    /// greeting's answer or a new path asks for the listing; a view mode is
    /// taken and remembered in a cookie.
    pub fn update(&mut self, props: &VolumePageProps, msg: Msg) -> (r: VolumePageUpdate)
        ensures
            match msg {
                Msg::ContextChanged { ready, browse_seq } => {
                    let got_new = browse_seq != old(self).last_browse_seq;
                    let became_ready = !old(self).ready && ready;
                    &&& final(self).ready == ready
                    &&& final(self).last_browse_seq == browse_seq
                    &&& final(self).loading == (if became_ready { true } else if got_new { false } else { old(self).loading })
                    &&& final(self).current_path == old(self).current_path
                    &&& final(self).view_mode == old(self).view_mode
                    &&& r.render
                    &&& r.cookie is None
                    &&& r.request == (if became_ready { Some(listing_of(props.id, old(self).current_path)) } else { None })
                },
                Msg::LocationChanged { path } => {
                    let moved = path@ != old(self).current_path@;
                    &&& final(self).ready == old(self).ready
                    &&& final(self).last_browse_seq == old(self).last_browse_seq
                    &&& final(self).view_mode == old(self).view_mode
                    &&& r.render == moved
                    &&& r.cookie is None
                    &&& (moved ==> final(self).current_path == path)
                    &&& (!moved ==> final(self).current_path == old(self).current_path)
                    &&& final(self).loading == (if moved && old(self).ready { true } else { old(self).loading })
                    &&& r.request == (if moved && old(self).ready { Some(listing_of(props.id, path)) } else { None })
                },
                Msg::SetViewMode(m) => {
                    &&& final(self).view_mode == m
                    &&& final(self).ready == old(self).ready
                    &&& final(self).current_path == old(self).current_path
                    &&& final(self).last_browse_seq == old(self).last_browse_seq
                    &&& final(self).loading == old(self).loading
                    &&& r.render
                    &&& r.request is None
                    &&& r.cookie matches Some(c) && c@ == "viewmode="@ + view_mode_name(m) + cookie_attributes()
                },
            },
    {
        match msg {
            Msg::ContextChanged { ready, browse_seq } => {
                let was_not_ready = !self.ready;
                let got_new_browse = browse_seq != self.last_browse_seq;
                self.ready = ready;
                if got_new_browse {
                    self.last_browse_seq = browse_seq;
                    self.loading = false;
                }
                let mut request = None;
                if was_not_ready && ready {
                    request = Some(self.request_listing(props));
                    self.loading = true;
                }
                VolumePageUpdate { render: true, request, cookie: None }
            },
            Msg::LocationChanged { path } => {
                if path != self.current_path {
                    self.current_path = path;
                    let mut request = None;
                    if self.ready {
                        request = Some(self.request_listing(props));
                        self.loading = true;
                    }
                    return VolumePageUpdate { render: true, request, cookie: None };
                }
                VolumePageUpdate { render: false, request: None, cookie: None }
            },
            Msg::SetViewMode(m) => {
                self.view_mode = m;
                VolumePageUpdate { render: true, request: None, cookie: Some(write_viewmode_cookie(m)) }
            },
        }
    }
}

} // verus!

//! What the pages show and link to: entry links, breadcrumbs, the
//! WebSocket address, role and permission labels, and times.
use vstd::prelude::*;
use crate::cookie::{split_chars, split_on};
use crate::text::{chars_of, decimal, string_of, u64_to_decimal};
use crate::types::{Permission, UtcTime};

verus! {

/// `s` without its trailing '/' characters (`trim_end_matches('/')`).
pub open spec fn trim_trailing_slashes(s: Seq<char>) -> Seq<char>
    decreases s.len(),
{
    if s.len() > 0 && s.last() == '/' {
        trim_trailing_slashes(s.drop_last())
    } else {
        s
    }
}

/// The path of a directory's child: `/<name>` below the root, otherwise the
/// directory (without trailing '/') followed by `/<name>`.
pub open spec fn child_path(current_path: Seq<char>, name: Seq<char>) -> Seq<char> {
    if current_path == "/"@ {
        "/"@ + name
    } else {
        trim_trailing_slashes(current_path) + "/"@ + name
    }
}

/// The page address of a volume.
pub open spec fn volume_href(vid: u64) -> Seq<char> {
    "/v/"@ + decimal(vid as nat)
}

/// The page address of a directory of a volume.
pub open spec fn directory_href(vid: u64, path: Seq<char>) -> Seq<char> {
    volume_href(vid) + "?path="@ + path
}

fn volume_href_string(vid: u64) -> (r: String)
    ensures
        r@ == volume_href(vid),
{
    let mut r = String::from_str("/v/");
    let id = u64_to_decimal(vid);
    r.append(id.as_str());
    r
}

/// The link of a listed entry: directories link to their own listing,
/// files have none.
pub fn entry_href(name: &str, is_dir: bool, vid: u64, current_path: &str) -> (r: Option<String>)
    ensures
        !is_dir ==> r is None,
        is_dir ==> (r matches Some(h) && h@ == directory_href(vid, child_path(current_path@, name@))),
{
    if !is_dir {
        return None;
    }
    let cp = String::from_str(current_path);
    let mut child = String::new();
    if cp == String::from_str("/") {
        child.append("/");
        child.append(name);
    } else {
        let cs = chars_of(current_path);
        let mut end: usize = cs.len();
        assert(cs@.subrange(0, end as int) =~= cs@);
        while end > 0 && cs[end - 1] == '/'
            invariant
                end <= cs.len(),
                trim_trailing_slashes(cs@) == trim_trailing_slashes(cs@.subrange(0, end as int)),
            decreases end,
        {
            assert(cs@.subrange(0, end as int).drop_last() =~= cs@.subrange(0, end - 1));
            end = end - 1;
        }
        let mut trimmed: Vec<char> = Vec::new();
        let mut k: usize = 0;
        while k < end
            invariant
                k <= end <= cs.len(),
                trimmed@ == cs@.subrange(0, k as int),
            decreases end - k,
        {
            trimmed.push(cs[k]);
            assert(cs@.subrange(0, k + 1) =~= cs@.subrange(0, k as int).push(cs@[k as int]));
            k = k + 1;
        }
        child = string_of(&trimmed);
        child.append("/");
        child.append(name);
    }
    let mut href = volume_href_string(vid);
    href.append("?path=");
    href.append(child.as_str());
    Some(href)
}

/// The pieces of `segs` joined by `sep`.
pub open spec fn join(segs: Seq<Seq<char>>, sep: Seq<char>) -> Seq<char>
    decreases segs.len(),
{
    if segs.len() == 0 {
        Seq::empty()
    } else if segs.len() == 1 {
        segs[0]
    } else {
        join(segs.drop_last(), sep) + sep + segs.last()
    }
}

/// The non-empty '/'-separated segments of a path.
pub open spec fn path_segments(path: Seq<char>) -> Seq<Seq<char>> {
    split_on(path, '/').filter(|s: Seq<char>| s.len() > 0)
}

/// The breadcrumbs of a directory: the volume's root ("/"), then one crumb
/// per segment of the path, each linking to the directory it ends.
pub open spec fn breadcrumbs_spec(vid: u64, path: Seq<char>) -> Seq<(Seq<char>, Seq<char>)> {
    let segs = path_segments(path);
    seq![("/"@, volume_href(vid))] + Seq::new(
        segs.len(),
        |i: int| (segs[i], directory_href(vid, "/"@ + join(segs.take(i + 1), "/"@))),
    )
}

/// Holds of non-empty character sequences.
pub open spec fn non_empty() -> spec_fn(Seq<char>) -> bool {
    |s: Seq<char>| s.len() > 0
}

proof fn lemma_join_push(segs: Seq<Seq<char>>, x: Seq<char>, sep: Seq<char>)
    ensures
        join(segs.push(x), sep) == if segs.len() == 0 { x } else { join(segs, sep) + sep + x },
{
    assert(segs.push(x).drop_last() =~= segs);
    if segs.len() == 0 {
        assert(segs.push(x)[0] == x);
    }
}

/// The breadcrumbs of a directory of a volume, as (label, link) pairs.
pub fn breadcrumbs(vid: u64, path: &str) -> (r: Vec<(String, String)>)
    ensures
        r@.len() == breadcrumbs_spec(vid, path@).len(),
        forall|i: int| 0 <= i < r@.len() ==> (#[trigger] r@[i]).0@ == breadcrumbs_spec(vid, path@)[i].0
            && r@[i].1@ == breadcrumbs_spec(vid, path@)[i].1,
{
    let cs = chars_of(path);
    let pieces = split_chars(&cs, '/');
    let ghost views = split_on(path@, '/');
    let base = volume_href_string(vid);
    let mut crumbs: Vec<(String, String)> = Vec::new();
    crumbs.push((String::from_str("/"), volume_href_string(vid)));
    let mut acc = String::new();
    let mut j: usize = 0;
    proof {
        assert(views.take(0) =~= Seq::<Seq<char>>::empty());
        reveal(Seq::filter);
        assert(views.take(0).filter(non_empty()) =~= Seq::<Seq<char>>::empty());
    }
    while j < pieces.len()
        invariant
            j <= pieces.len(),
            pieces@.len() == views.len(),
            views == split_on(path@, '/'),
            base@ == volume_href(vid),
            forall|k: int| 0 <= k < pieces@.len() ==> (#[trigger] pieces@[k])@ == views[k],
            crumbs@.len() == 1 + views.take(j as int).filter(non_empty()).len(),
            crumbs@[0].0@ == "/"@,
            crumbs@[0].1@ == volume_href(vid),
            forall|t: int| 0 <= t < views.take(j as int).filter(non_empty()).len() ==> {
                let segs = views.take(j as int).filter(non_empty());
                &&& (#[trigger] crumbs@[t + 1]).0@ == segs[t]
                &&& crumbs@[t + 1].1@ == directory_href(vid, "/"@ + join(segs.take(t + 1), "/"@))
            },
            views.take(j as int).filter(non_empty()).len() == 0 ==> acc@.len() == 0,
            views.take(j as int).filter(non_empty()).len() > 0 ==> acc@ == "/"@ + join(views.take(j as int).filter(non_empty()), "/"@),
        decreases pieces.len() - j,
    {
        let ghost segs = views.take(j as int).filter(non_empty());
        proof {
            assert(views.take(j + 1) =~= views.take(j as int).push(views[j as int]));
            views.take(j as int).lemma_filter_push(views[j as int], non_empty());
        }
        if pieces[j].len() > 0 {
            let piece = string_of(&pieces[j]);
            let ghost old_acc = acc@;
            acc.append("/");
            acc.append(piece.as_str());
            let mut href = String::new();
            href.append(base.as_str());
            href.append("?path=");
            href.append(acc.as_str());
            let ghost before = crumbs@;
            crumbs.push((piece, href));
            proof {
                let segs2 = segs.push(views[j as int]);
                assert(views.take(j + 1).filter(non_empty()) == segs2);
                lemma_join_push(segs, views[j as int], "/"@);
                if segs.len() == 0 {
                    assert(acc@ =~= "/"@ + join(segs2, "/"@));
                } else {
                    assert(acc@ =~= "/"@ + join(segs2, "/"@));
                }
                assert(segs2.take(segs2.len() as int) =~= segs2);
                assert forall|t: int| 0 <= t < segs2.len() implies {
                    &&& (#[trigger] crumbs@[t + 1]).0@ == segs2[t]
                    &&& crumbs@[t + 1].1@ == directory_href(vid, "/"@ + join(segs2.take(t + 1), "/"@))
                } by {
                    if t < segs.len() {
                        assert(crumbs@[t + 1] == before[t + 1]);
                        assert(segs2.take(t + 1) =~= segs.take(t + 1));
                    }
                }
            }
        } else {
            proof {
                assert(views.take(j + 1).filter(non_empty()) == segs);
            }
        }
        j = j + 1;
    }
    proof {
        assert(views.take(views.len() as int) =~= views);
        let spec = breadcrumbs_spec(vid, path@);
        assert forall|i: int| 0 <= i < crumbs@.len() implies (#[trigger] crumbs@[i]).0@ == spec[i].0
            && crumbs@[i].1@ == spec[i].1 by {
            if i > 0 {
                let t = i - 1;
                assert(crumbs@[t + 1] == crumbs@[i]);
            }
        }
    }
    crumbs
}

/// The WebSocket address of the server a page was loaded from: `wss:` for
/// pages served over `https:`, `ws:` otherwise.
pub open spec fn ws_url_spec(protocol: Seq<char>, host: Seq<char>) -> Seq<char> {
    (if protocol == "https:"@ { "wss:"@ } else { "ws:"@ }) + "//"@ + host + "/ws"@
}

/// The WebSocket address for a page's protocol and host.
pub fn ws_url(protocol: &str, host: &str) -> (r: String)
    ensures
        r@ == ws_url_spec(protocol@, host@),
{
    let p = String::from_str(protocol);
    let mut r = if p == String::from_str("https:") { String::from_str("wss:") } else { String::from_str("ws:") };
    r.append("//");
    r.append(host);
    r.append("/ws");
    r
}

/// A link to `base` that asks to come back to the (URI-encoded) current path.
pub fn href_with_redirect(base: &str, encoded_path: &str) -> (r: String)
    ensures
        r@ == base@ + "?redirect="@ + encoded_path@,
{
    let mut r = String::from_str(base);
    r.append("?redirect=");
    r.append(encoded_path);
    r
}

/// The login link that comes back to the (URI-encoded) current path.
pub fn login_href_with_redirect(encoded_path: &str) -> (r: String)
    ensures
        r@ == "/login?redirect="@ + encoded_path@,
{
    let r = href_with_redirect("/login", encoded_path);
    proof {
        reveal_strlit("/login");
        reveal_strlit("?redirect=");
        reveal_strlit("/login?redirect=");
        assert(r@ =~= "/login?redirect="@ + encoded_path@);
    }
    r
}

/// The logout link that comes back to the (URI-encoded) current path.
pub fn logout_href_with_redirect(encoded_path: &str) -> (r: String)
    ensures
        r@ == "/logout?redirect="@ + encoded_path@,
{
    let r = href_with_redirect("/logout", encoded_path);
    proof {
        reveal_strlit("/logout");
        reveal_strlit("?redirect=");
        reveal_strlit("/logout?redirect=");
        assert(r@ =~= "/logout?redirect="@ + encoded_path@);
    }
    r
}

/// The name paired with `id` first in `pairs`, if any.
pub open spec fn first_name(pairs: Seq<(u64, String)>, id: u64) -> Option<String>
    decreases pairs.len(),
{
    if pairs.len() == 0 {
        None
    } else if pairs[0].0 == id {
        Some(pairs[0].1)
    } else {
        first_name(pairs.drop_first(), id)
    }
}

fn find_name(pairs: &Vec<(u64, String)>, id: u64) -> (r: Option<String>)
    ensures
        r == first_name(pairs@, id),
{
    let mut i: usize = 0;
    assert(pairs@.skip(0) =~= pairs@);
    while i < pairs.len()
        invariant
            i <= pairs.len(),
            first_name(pairs@, id) == first_name(pairs@.skip(i as int), id),
        decreases pairs.len() - i,
    {
        assert(pairs@.skip(i as int)[0] == pairs@[i as int]);
        if pairs[i].0 == id {
            return Some(pairs[i].1.clone());
        }
        assert(pairs@.skip(i as int).drop_first() =~= pairs@.skip(i + 1));
        i = i + 1;
    }
    None
}

/// The name of a role for the volume table: its name among the guild's
/// roles, or else its id.
pub fn role_name(roles: &Vec<(u64, String)>, role_id: u64) -> (r: String)
    ensures
        r@ == (match first_name(roles@, role_id) { Some(n) => n@, None => decimal(role_id as nat) }),
{
    match find_name(roles, role_id) {
        Some(n) => n,
        None => u64_to_decimal(role_id),
    }
}

/// The heading of a volume page: the volume's name among the user's
/// volumes, or nothing.
pub fn volume_name(volumes: &Vec<(u64, String)>, vid: u64) -> (r: String)
    ensures
        r@ == (match first_name(volumes@, vid) { Some(n) => n@, None => Seq::<char>::empty() }),
{
    match find_name(volumes, vid) {
        Some(n) => n,
        None => String::new(),
    }
}

/// The label of a permission in the volume table.
pub fn permission_label(p: Permission) -> (r: &'static str)
    ensures
        r@ == (match p { Permission::ReadOnly => "Read Only"@, Permission::ReadWrite => "Read & Write"@ }),
{
    match p {
        Permission::ReadOnly => "Read Only",
        Permission::ReadWrite => "Read & Write",
    }
}

/// The permission that the form's select value stands for: "rw" is read &
/// write, anything else read only.
pub fn permission_from_select(value: &str) -> (r: Permission)
    ensures
        r == (if value@ == "rw"@ { Permission::ReadWrite } else { Permission::ReadOnly }),
{
    let v = String::from_str(value);
    if v == String::from_str("rw") { Permission::ReadWrite } else { Permission::ReadOnly }
}

/// The label of an entry's kind in the table view.
pub fn entry_type_label(is_dir: bool) -> (r: &'static str)
    ensures
        r@ == (if is_dir { "Directory"@ } else { "File"@ }),
{
    if is_dir { "Directory" } else { "File" }
}

/// The value of the role selector: the selected role's id, or nothing.
pub fn selected_value(selected: Option<u64>) -> (r: String)
    ensures
        r@ == (match selected { Some(id) => decimal(id as nat), None => Seq::<char>::empty() }),
{
    match selected {
        Some(id) => u64_to_decimal(id),
        None => String::new(),
    }
}

/// The earliest and latest seconds that chrono's UTC times can hold.
pub open spec fn utc_in_range(t: UtcTime) -> bool {
    -8334601315200 <= t.secs <= 8210266876799 && t.nanos < 1_000_000_000
}

/// A UTC time written as chrono's `format("%Y-%m-%d %H:%M:%S")` writes it.
pub uninterp spec fn utc_text(secs: i64, nanos: u32) -> Seq<char>;

/// chrono's `DateTime::from_timestamp` followed by
/// `format("%Y-%m-%d %H:%M:%S")`: `None` only when the time is outside
/// chrono's range; otherwise the name `utc_text` of the time.
#[verifier::external_body]
fn utc_format(secs: i64, nanos: u32) -> (r: Option<String>)
    ensures
        (-8334601315200 <= secs <= 8210266876799 && nanos < 1_000_000_000) ==> r is Some,
        r matches Some(s) ==> s@ == utc_text(secs, nanos),
{
    match chrono::DateTime::from_timestamp(secs, nanos) {
        Some(d) => Some(d.format("%Y-%m-%d %H:%M:%S").to_string()),
        None => None,
    }
}

/// A time as the tables show it, or "—" when there is none.
pub fn format_datetime(dt: &Option<UtcTime>) -> (r: String)
    requires
        *dt matches Some(t) ==> utc_in_range(t),
    ensures
        r@ == (match *dt { Some(t) => utc_text(t.secs, t.nanos), None => "—"@ }),
{
    match dt {
        Some(t) => match utc_format(t.secs, t.nanos) {
            Some(s) => s,
            None => String::from_str("—"),
        },
        None => String::from_str("—"),
    }
}

} // verus!

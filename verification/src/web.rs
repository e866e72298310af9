//! What the control surface computes: the error payload shape, the query and
//! request shapes, the status filter of the instance listing, and the rules
//! of the static-asset routes. The HTTP wiring around these lives with the
//! caller.

use vstd::prelude::*;
use vstd::string::StringSliceAdditionalSpecFns;
use vstd::string::StrSliceExecFns;
use crate::instance::InstanceStatus;
use crate::instance::ProxyInstance;
use crate::instance::ProxyInstanceView;

verus! {

/// The error payload of a failed control-plane request.
#[derive(Debug)]
pub struct ErrorResponse {
    pub error: String,
    pub message: String,
}

impl ErrorResponse {
    /// An error payload from its code and message.
    pub fn new(error: String, message: String) -> (r: ErrorResponse)
        ensures
            r.error@ == error@,
            r.message@ == message@,
    {
        ErrorResponse { error, message }
    }
}

/// The query of the instance listing: an optional status name to filter by,
/// in any letter case.
#[derive(Debug)]
pub struct InstanceQuery {
    pub status: Option<String>,
}

/// The body of a configuration import: the document text.
#[derive(Debug)]
pub struct ImportConfigRequest {
    pub config: String,
}

/// ASCII letters folded to lower case, byte by byte; other bytes unchanged.
pub open spec fn spec_ascii_lower(s: Seq<u8>) -> Seq<u8> {
    s.map_values(
        |b: u8|
            if 65 <= b <= 90 {
                (b + 32) as u8
            } else {
                b
            },
    )
}

/// The lowercase name of a lifecycle status, as bytes.
pub open spec fn spec_status_name_bytes(s: InstanceStatus) -> Seq<u8> {
    match s {
        InstanceStatus::Stopped => seq![('s' as u8), ('t' as u8), ('o' as u8), ('p' as u8), ('p' as u8), ('e' as u8), ('d' as u8)],
        InstanceStatus::Running => seq![('r' as u8), ('u' as u8), ('n' as u8), ('n' as u8), ('i' as u8), ('n' as u8), ('g' as u8)],
        InstanceStatus::Error => seq![('e' as u8), ('r' as u8), ('r' as u8), ('o' as u8), ('r' as u8)],
        InstanceStatus::Starting => seq![('s' as u8), ('t' as u8), ('a' as u8), ('r' as u8), ('t' as u8), ('i' as u8), ('n' as u8), ('g' as u8)],
        InstanceStatus::Stopping => seq![('s' as u8), ('t' as u8), ('o' as u8), ('p' as u8), ('p' as u8), ('i' as u8), ('n' as u8), ('g' as u8)],
    }
}

/// The lowercase name of a lifecycle status, as bytes.
pub fn status_name_bytes(s: InstanceStatus) -> (r: Vec<u8>)
    ensures
        r@ == spec_status_name_bytes(s),
{
    let mut r: Vec<u8> = Vec::new();
    match s {
        InstanceStatus::Stopped => {
            r.push(('s' as u8));
            r.push(('t' as u8));
            r.push(('o' as u8));
            r.push(('p' as u8));
            r.push(('p' as u8));
            r.push(('e' as u8));
            r.push(('d' as u8));
        },
        InstanceStatus::Running => {
            r.push(('r' as u8));
            r.push(('u' as u8));
            r.push(('n' as u8));
            r.push(('n' as u8));
            r.push(('i' as u8));
            r.push(('n' as u8));
            r.push(('g' as u8));
        },
        InstanceStatus::Error => {
            r.push(('e' as u8));
            r.push(('r' as u8));
            r.push(('r' as u8));
            r.push(('o' as u8));
            r.push(('r' as u8));
        },
        InstanceStatus::Starting => {
            r.push(('s' as u8));
            r.push(('t' as u8));
            r.push(('a' as u8));
            r.push(('r' as u8));
            r.push(('t' as u8));
            r.push(('i' as u8));
            r.push(('n' as u8));
            r.push(('g' as u8));
        },
        InstanceStatus::Stopping => {
            r.push(('s' as u8));
            r.push(('t' as u8));
            r.push(('o' as u8));
            r.push(('p' as u8));
            r.push(('p' as u8));
            r.push(('i' as u8));
            r.push(('n' as u8));
            r.push(('g' as u8));
        },
    }
    proof {
        assert(r@ =~= spec_status_name_bytes(s));
    }
    r
}

/// Fold ASCII letters of the bytes to lower case.
pub fn ascii_lower_bytes(s: &[u8]) -> (r: Vec<u8>)
    ensures
        r@ == spec_ascii_lower(s@),
{
    let n = s.len();
    let mut r: Vec<u8> = Vec::new();
    let mut i: usize = 0;
    while i < n
        invariant
            n == s@.len(),
            0 <= i <= n,
            r@ == spec_ascii_lower(s@.subrange(0, i as int)),
        decreases n - i,
    {
        let b = s[i];
        let folded: u8 = if 65 <= b && b <= 90 {
            b + 32
        } else {
            b
        };
        r.push(folded);
        proof {
            assert(r@ =~= spec_ascii_lower(s@.subrange(0, i + 1)));
        }
        i = i + 1;
    }
    proof {
        assert(s@.subrange(0, n as int) =~= s@);
    }
    r
}

/// Whether two byte vectors hold the same bytes.
pub fn bytes_equal(a: &Vec<u8>, b: &Vec<u8>) -> (r: bool)
    ensures
        r == (a@ == b@),
{
    let n = a.len();
    if n != b.len() {
        proof {
            assert(a@ != b@);
        }
        return false;
    }
    let mut i: usize = 0;
    while i < n
        invariant
            n == a@.len(),
            n == b@.len(),
            0 <= i <= n,
            forall|k: int| 0 <= k < i ==> a@[k] == b@[k],
        decreases n - i,
    {
        if a[i] != b[i] {
            return false;
        }
        i = i + 1;
    }
    proof {
        assert(a@ =~= b@);
    }
    true
}

/// Whether a status matches the listing filter: the filter, folded to lower
/// case, spells the status's name.
pub fn status_matches_filter(filter: &str, status: InstanceStatus) -> (r: bool)
    ensures
        r == (spec_ascii_lower(filter.spec_bytes()) == spec_status_name_bytes(status)),
{
    let fb = filter.as_bytes_vec();
    let folded = ascii_lower_bytes(fb.as_slice());
    let name = status_name_bytes(status);
    bytes_equal(&folded, &name)
}

/// The instances whose status spells the filter, in order; the filter is
/// read in any letter case.
pub fn filter_instances_by_status(instances: Vec<ProxyInstance>, filter: &str) -> (r: Vec<
    ProxyInstance,
>)
    ensures
        r@.map_values(|p: ProxyInstance| p@) == instances@.map_values(
            |p: ProxyInstance| p@,
        ).filter(
            |v: ProxyInstanceView| spec_status_name_bytes(v.status) == spec_ascii_lower(
                filter.spec_bytes(),
            ),
        ),
{
    let ghost pred = |v: ProxyInstanceView| spec_status_name_bytes(v.status) == spec_ascii_lower(
        filter.spec_bytes(),
    );
    let ghost all = instances@.map_values(|p: ProxyInstance| p@);
    let n = instances.len();
    let mut r: Vec<ProxyInstance> = Vec::new();
    let mut i: usize = 0;
    while i < n
        invariant
            n == instances@.len(),
            n == all.len(),
            all == instances@.map_values(|p: ProxyInstance| p@),
            0 <= i <= n,
            r@.map_values(|p: ProxyInstance| p@) == all.subrange(0, i as int).filter(pred),
            pred == (|v: ProxyInstanceView| spec_status_name_bytes(v.status) == spec_ascii_lower(
                filter.spec_bytes(),
            )),
        decreases n - i,
    {
        proof {
            assert(all[i as int] == instances@[i as int]@);
        }
        let keep = status_matches_filter(filter, instances[i].status);
        if keep {
            let copy = instances[i].duplicate();
            r.push(copy);
        }
        proof {
            reveal(Seq::filter);
            let prefix = all.subrange(0, i as int);
            let prefix1 = all.subrange(0, i + 1);
            assert(prefix1.drop_last() =~= prefix);
            assert(prefix1.last() == all[i as int]);
            assert(r@.map_values(|p: ProxyInstance| p@) =~= prefix1.filter(pred));
        }
        i = i + 1;
    }
    proof {
        assert(all.subrange(0, n as int) =~= all);
    }
    r
}

/// Whether a requested static-asset path is safe to serve: it must not step
/// upwards through a parent-directory component.
pub open spec fn spec_contains_dotdot(s: Seq<u8>) -> bool {
    exists|i: int| 0 <= i && i + 1 < s.len() && #[trigger] s[i] == 46u8 && s[i + 1] == 46u8
}

/// Whether the path holds two consecutive dots.
pub fn path_contains_dotdot(path: &str) -> (r: bool)
    ensures
        r == spec_contains_dotdot(path.spec_bytes()),
{
    let b = path.as_bytes_vec();
    let n = b.len();
    if n < 2 {
        return false;
    }
    let mut i: usize = 0;
    while i + 1 < n
        invariant
            n == b@.len(),
            b@ == path.spec_bytes(),
            0 <= i,
            i < n,
            forall|k: int| 0 <= k && k < i ==> !(#[trigger] b@[k] == 46u8 && b@[k + 1] == 46u8),
        decreases n - i,
    {
        if b[i] == 46 && b[i + 1] == 46 {
            return true;
        }
        i = i + 1;
    }
    false
}

/// Whether the path ends with the given suffix.
pub open spec fn spec_ends_with(s: Seq<u8>, suffix: Seq<u8>) -> bool {
    s.len() >= suffix.len() && s.subrange(s.len() - suffix.len(), s.len() as int) == suffix
}

/// Whether the byte vector ends with the given suffix.
fn bytes_end_with(b: &Vec<u8>, suffix: &Vec<u8>) -> (r: bool)
    ensures
        r == spec_ends_with(b@, suffix@),
{
    let n = b.len();
    let m = suffix.len();
    if n < m {
        return false;
    }
    let start = n - m;
    let mut i: usize = 0;
    while i < m
        invariant
            n == b@.len(),
            m == suffix@.len(),
            start == n - m,
            0 <= i <= m,
            forall|k: int| 0 <= k < i ==> b@[start + k] == suffix@[k],
        decreases m - i,
    {
        if b[start + i] != suffix[i] {
            proof {
                assert(b@.subrange(n - m, n as int)[i as int] == b@[start + i]);
            }
            return false;
        }
        i = i + 1;
    }
    proof {
        assert(b@.subrange(n - m, n as int) =~= suffix@);
    }
    true
}

/// The file extensions the static routes recognise, with their content
/// types.
pub open spec fn spec_content_type(path: Seq<u8>) -> Seq<char> {
    if spec_ends_with(path, seq![('.' as u8), ('c' as u8), ('s' as u8), ('s' as u8)]) {
        "text/css"@
    } else if spec_ends_with(path, seq![('.' as u8), ('j' as u8), ('s' as u8)]) {
        "application/javascript"@
    } else if spec_ends_with(path, seq![('.' as u8), ('h' as u8), ('t' as u8), ('m' as u8), ('l' as u8)]) {
        "text/html"@
    } else if spec_ends_with(path, seq![('.' as u8), ('p' as u8), ('n' as u8), ('g' as u8)]) {
        "image/png"@
    } else if spec_ends_with(path, seq![('.' as u8), ('j' as u8), ('p' as u8), ('g' as u8)]) || spec_ends_with(
        path,
        seq![('.' as u8), ('j' as u8), ('p' as u8), ('e' as u8), ('g' as u8)],
    ) {
        "image/jpeg"@
    } else if spec_ends_with(path, seq![('.' as u8), ('s' as u8), ('v' as u8), ('g' as u8)]) {
        "image/svg+xml"@
    } else if spec_ends_with(path, seq![('.' as u8), ('j' as u8), ('s' as u8), ('o' as u8), ('n' as u8)]) {
        "application/json"@
    } else {
        "application/octet-stream"@
    }
}

/// The content type a static asset is served with, by its file extension.
pub fn content_type_for(path: &str) -> (r: String)
    ensures
        r@ == spec_content_type(path.spec_bytes()),
{
    let b = path.as_bytes_vec();
    if bytes_end_with(&b, &suffix_bytes(0)) {
        "text/css".to_owned()
    } else if bytes_end_with(&b, &suffix_bytes(1)) {
        "application/javascript".to_owned()
    } else if bytes_end_with(&b, &suffix_bytes(2)) {
        "text/html".to_owned()
    } else if bytes_end_with(&b, &suffix_bytes(3)) {
        "image/png".to_owned()
    } else if bytes_end_with(&b, &suffix_bytes(4)) || bytes_end_with(&b, &suffix_bytes(5)) {
        "image/jpeg".to_owned()
    } else if bytes_end_with(&b, &suffix_bytes(6)) {
        "image/svg+xml".to_owned()
    } else if bytes_end_with(&b, &suffix_bytes(7)) {
        "application/json".to_owned()
    } else {
        "application/octet-stream".to_owned()
    }
}

/// The recognised file suffixes, by index: css, js, html, png, jpg, jpeg,
/// svg, json.
fn suffix_bytes(which: u8) -> (r: Vec<u8>)
    ensures
        which == 0 ==> r@ == seq![('.' as u8), ('c' as u8), ('s' as u8), ('s' as u8)],
        which == 1 ==> r@ == seq![('.' as u8), ('j' as u8), ('s' as u8)],
        which == 2 ==> r@ == seq![('.' as u8), ('h' as u8), ('t' as u8), ('m' as u8), ('l' as u8)],
        which == 3 ==> r@ == seq![('.' as u8), ('p' as u8), ('n' as u8), ('g' as u8)],
        which == 4 ==> r@ == seq![('.' as u8), ('j' as u8), ('p' as u8), ('g' as u8)],
        which == 5 ==> r@ == seq![('.' as u8), ('j' as u8), ('p' as u8), ('e' as u8), ('g' as u8)],
        which == 6 ==> r@ == seq![('.' as u8), ('s' as u8), ('v' as u8), ('g' as u8)],
        which == 7 ==> r@ == seq![('.' as u8), ('j' as u8), ('s' as u8), ('o' as u8), ('n' as u8)],
{
    let mut r: Vec<u8> = Vec::new();
    r.push(('.' as u8));
    if which == 0 {
        r.push(('c' as u8));
        r.push(('s' as u8));
        r.push(('s' as u8));
        proof {
            assert(r@ =~= seq![('.' as u8), ('c' as u8), ('s' as u8), ('s' as u8)]);
        }
    } else if which == 1 {
        r.push(('j' as u8));
        r.push(('s' as u8));
        proof {
            assert(r@ =~= seq![('.' as u8), ('j' as u8), ('s' as u8)]);
        }
    } else if which == 2 {
        r.push(('h' as u8));
        r.push(('t' as u8));
        r.push(('m' as u8));
        r.push(('l' as u8));
        proof {
            assert(r@ =~= seq![('.' as u8), ('h' as u8), ('t' as u8), ('m' as u8), ('l' as u8)]);
        }
    } else if which == 3 {
        r.push(('p' as u8));
        r.push(('n' as u8));
        r.push(('g' as u8));
        proof {
            assert(r@ =~= seq![('.' as u8), ('p' as u8), ('n' as u8), ('g' as u8)]);
        }
    } else if which == 4 {
        r.push(('j' as u8));
        r.push(('p' as u8));
        r.push(('g' as u8));
        proof {
            assert(r@ =~= seq![('.' as u8), ('j' as u8), ('p' as u8), ('g' as u8)]);
        }
    } else if which == 5 {
        r.push(('j' as u8));
        r.push(('p' as u8));
        r.push(('e' as u8));
        r.push(('g' as u8));
        proof {
            assert(r@ =~= seq![('.' as u8), ('j' as u8), ('p' as u8), ('e' as u8), ('g' as u8)]);
        }
    } else if which == 6 {
        r.push(('s' as u8));
        r.push(('v' as u8));
        r.push(('g' as u8));
        proof {
            assert(r@ =~= seq![('.' as u8), ('s' as u8), ('v' as u8), ('g' as u8)]);
        }
    } else if which == 7 {
        r.push(('j' as u8));
        r.push(('s' as u8));
        r.push(('o' as u8));
        r.push(('n' as u8));
        proof {
            assert(r@ =~= seq![('.' as u8), ('j' as u8), ('s' as u8), ('o' as u8), ('n' as u8)]);
        }
    }
    r
}

} // verus!

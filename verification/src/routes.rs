//! The requests and answers of the endpoints, and the decisions they make:
//! whether to wait for the update, and which containers an image update
//! touches.

use vstd::prelude::*;

use crate::error::ImageParseError;
use crate::parse::{image_tag_outcome, image_tag_refused, parse_image_tag};

verus! {

/// The body of `POST /update_container`.
#[derive(Clone, Debug)]
pub struct UpdateContainerParams {
    pub container: String,
    pub pull: Option<bool>,
    pub wait_for_completion: Option<bool>,
}

/// One container that was restarted, and the image it now runs.
#[derive(Debug)]
pub struct UpdateContainerResponse {
    pub container: String,
    pub image: String,
}

impl UpdateContainerResponse {
    pub fn new(container: String, image: String) -> (res: Self)
        ensures
            res.container == container,
            res.image == image,
    {
        UpdateContainerResponse { container, image }
    }
}

/// The body of `POST /update_image`.
#[derive(Clone, Debug)]
pub struct UpdateImageParams {
    pub previous_image: Option<String>,
    pub image: String,
    pub wait_for_completion: Option<bool>,
}

/// The containers that an image update restarted.
#[derive(Debug)]
pub struct UpdateImageResponse {
    pub containers: Vec<UpdateContainerResponse>,
}

impl UpdateImageResponse {
    pub fn new(containers: Vec<UpdateContainerResponse>) -> (res: Self)
        ensures
            res.containers == containers,
    {
        UpdateImageResponse { containers }
    }
}

/// An image and a tag, as named in a request path.
#[derive(Debug)]
pub struct ImageDefinition {
    pub image: String,
    pub tag: String,
}

/// Whether a request asks to be answered only once the work is done; by
/// default it is answered at once.
pub open spec fn spec_waits(wait_for_completion: Option<bool>) -> bool {
    wait_for_completion == Some(true)
}

impl UpdateContainerParams {
    /// Whether the request is answered only once the container is updated.
    pub fn waits_for_completion(&self) -> (res: bool)
        ensures
            res == spec_waits(self.wait_for_completion),
    {
        match self.wait_for_completion {
            Some(w) => w,
            None => false,
        }
    }
}

impl UpdateImageParams {
    /// Whether the request is answered only once the containers are updated.
    pub fn waits_for_completion(&self) -> (res: bool)
        ensures
            res == spec_waits(self.wait_for_completion),
    {
        match self.wait_for_completion {
            Some(w) => w,
            None => false,
        }
    }
}

/// The status of a successful update answer: 200 (with the updated
/// containers) where the request waited for the work, else 204 (no content),
/// the work going on in the background.
pub fn success_status(waited: bool) -> (res: u16)
    ensures
        res == (if waited {
            200u16
        } else {
            204u16
        }),
{
    if waited {
        200
    } else {
        204
    }
}

/// The view of an optional string.
pub open spec fn opt_view(s: Option<String>) -> Option<Seq<char>> {
    match s {
        Some(v) => Some(v@),
        None => None,
    }
}

/// The target image and the previous image of an image update request, each
/// normalised by `parse_image_tag`; the first refusal (the target image's
/// first) where one is refused.
pub fn parse_update_image_params(params: &UpdateImageParams) -> (res: Result<
    (String, Option<String>),
    ImageParseError,
>)
    ensures
        res is Ok <==> !image_tag_refused(params.image@) && (params.previous_image matches Some(p)
            ==> !image_tag_refused(p@)),
        res matches Ok((target, previous)) ==> image_tag_outcome(params.image@, Ok(target)) && match params.previous_image {
            Some(p) => previous matches Some(pp) && image_tag_outcome(p@, Ok(pp)),
            None => previous is None,
        },
        res matches Err(e) ==> if image_tag_refused(params.image@) {
            image_tag_outcome(params.image@, Err(e))
        } else {
            params.previous_image matches Some(p) && image_tag_outcome(p@, Err(e))
        },
{
    let target = parse_image_tag(params.image.clone());
    match target {
        Err(e) => Err(e),
        Ok(target) => match &params.previous_image {
            Some(p) => {
                let previous = parse_image_tag(p.clone());
                match previous {
                    Ok(pp) => Ok((target, Some(pp))),
                    Err(e) => Err(e),
                }
            },
            None => Ok((target, None)),
        },
    }
}

/// A container as the docker daemon lists it: its id, the image it runs and
/// its names.
#[derive(Clone, Debug)]
pub struct ContainerSummary {
    pub id: Option<String>,
    pub image: Option<String>,
    pub names: Option<Vec<String>>,
}

/// `s` without the `/` characters it starts with.
pub open spec fn spec_trim_leading_slashes(s: Seq<char>) -> Seq<char>
    decreases s.len(),
{
    if s.len() > 0 && s[0] == '/' {
        spec_trim_leading_slashes(s.drop_first())
    } else {
        s
    }
}

/// The name a container is addressed by: its first name without leading `/`,
/// or its id where it has no name, or the empty string.
pub open spec fn spec_container_name(c: ContainerSummary) -> Seq<char> {
    match c.names {
        Some(names) if names@.len() > 0 => spec_trim_leading_slashes(names@[0]@),
        _ => match c.id {
            Some(id) => id@,
            None => Seq::empty(),
        },
    }
}

/// The container an image update restarts, by name: one that runs the
/// previous image (where one is given; else the target image itself) and
/// has a non-empty name.
pub open spec fn spec_update_target(
    c: ContainerSummary,
    target: Seq<char>,
    previous: Option<Seq<char>>,
) -> Option<Seq<char>> {
    match c.image {
        Some(image) => {
            let wanted = match previous {
                Some(p) => p,
                None => target,
            };
            let name = spec_container_name(c);
            if image@ == wanted && name.len() > 0 {
                Some(name)
            } else {
                None
            }
        },
        None => None,
    }
}

/// The names of the containers an image update restarts, in the order the
/// daemon listed them.
pub open spec fn spec_update_targets(
    cs: Seq<ContainerSummary>,
    target: Seq<char>,
    previous: Option<Seq<char>>,
) -> Seq<Seq<char>>
    decreases cs.len(),
{
    if cs.len() == 0 {
        Seq::empty()
    } else {
        let rest = spec_update_targets(cs.drop_last(), target, previous);
        match spec_update_target(cs.last(), target, previous) {
            Some(name) => rest.push(name),
            None => rest,
        }
    }
}

/// `s` without its leading `/` characters.
pub fn trim_leading_slashes(s: &str) -> (res: String)
    ensures
        res@ == spec_trim_leading_slashes(s@),
{
    let n = s.unicode_len();
    let mut i: usize = 0;
    assert(s@.skip(0) =~= s@);
    while i < n && s.get_char(i) == '/'
        invariant
            n == s@.len(),
            i <= n,
            spec_trim_leading_slashes(s@) == spec_trim_leading_slashes(s@.skip(i as int)),
        decreases n - i,
    {
        assert(s@.skip(i as int).drop_first() =~= s@.skip(i + 1));
        i = i + 1;
    }
    let rest = s.substring_char(i, n);
    assert(rest@ =~= s@.skip(i as int));
    String::from_str(rest)
}

/// The name a container is addressed by.
pub fn container_name(c: &ContainerSummary) -> (res: String)
    ensures
        res@ == spec_container_name(*c),
{
    match &c.names {
        Some(names) if names.len() > 0 => trim_leading_slashes(names[0].as_str()),
        _ => match &c.id {
            Some(id) => id.clone(),
            None => String::new(),
        },
    }
}

/// The name of the container an image update restarts, where it restarts it.
pub fn update_target(c: &ContainerSummary, target: &String, previous: &Option<String>) -> (res:
    Option<String>)
    ensures
        opt_view(res) == spec_update_target(*c, target@, opt_view(*previous)),
{
    match &c.image {
        Some(image) => {
            let matches = match previous {
                Some(p) => *image == *p,
                None => *image == *target,
            };
            if !matches {
                return None;
            }
            let name = container_name(c);
            if name.as_str().is_empty() {
                None
            } else {
                Some(name)
            }
        },
        None => None,
    }
}

/// The names of the containers that an update to `target` restarts, out of
/// the containers the daemon listed: where `previous` is given, those that run
/// it, else those that run `target` itself.
pub fn update_targets(
    containers: &Vec<ContainerSummary>,
    target: &String,
    previous: &Option<String>,
) -> (res: Vec<String>)
    ensures
        res@.map_values(|s: String| s@) == spec_update_targets(
            containers@,
            target@,
            opt_view(*previous),
        ),
{
    let mut res: Vec<String> = Vec::new();
    let n = containers.len();
    let mut i: usize = 0;
    while i < n
        invariant
            n == containers@.len(),
            i <= n,
            res@.map_values(|s: String| s@) == spec_update_targets(
                containers@.take(i as int),
                target@,
                opt_view(*previous),
            ),
        decreases n - i,
    {
        let ghost before = res@;
        let found = update_target(&containers[i], target, previous);
        assert(containers@.take(i + 1).drop_last() =~= containers@.take(i as int));
        assert(containers@.take(i + 1).last() == containers@[i as int]);
        match found {
            Some(name) => {
                let ghost name_view = name@;
                res.push(name);
                assert(res@.map_values(|s: String| s@) =~= before.map_values(|s: String| s@).push(
                    name_view,
                ));
            },
            None => {},
        }
        i = i + 1;
    }
    assert(containers@.take(n as int) =~= containers@);
    res
}


/// An image update restarts exactly the containers it should: every name it restarts is non-empty and is that of a listed container that
/// runs the wanted image (the previous one where given, else the target), and
/// every such container is restarted.
pub proof fn lemma_update_targets_exact(
    cs: Seq<ContainerSummary>,
    target: Seq<char>,
    previous: Option<Seq<char>>,
)
    ensures
        ({
            let r = spec_update_targets(cs, target, previous);
            &&& r.len() <= cs.len()
            &&& forall|k: int|
                0 <= k < r.len() ==> (#[trigger] r[k]).len() > 0 && exists|i: int|
                    0 <= i < cs.len() && spec_update_target(cs[i], target, previous) == Some(r[k])
            &&& forall|i: int|
                0 <= i < cs.len() && (#[trigger] spec_update_target(cs[i], target, previous)) is Some
                    ==> r.contains(spec_update_target(cs[i], target, previous).unwrap())
        }),
    decreases cs.len(),
{
    if cs.len() > 0 {
        let init = cs.drop_last();
        lemma_update_targets_exact(init, target, previous);
        let rest = spec_update_targets(init, target, previous);
        let r = spec_update_targets(cs, target, previous);
        assert forall|k: int| 0 <= k < r.len() implies (#[trigger] r[k]).len() > 0 && exists|i: int|
            0 <= i < cs.len() && spec_update_target(cs[i], target, previous) == Some(r[k]) by {
            if k < rest.len() {
                assert(r[k] == rest[k]);
                let i = choose|i: int|
                    0 <= i < init.len() && spec_update_target(init[i], target, previous) == Some(
                        rest[k],
                    );
                assert(cs[i] == init[i]);
            } else {
                assert(spec_update_target(cs[cs.len() - 1], target, previous) == Some(r[k]));
            }
        }
        assert forall|i: int|
            0 <= i < cs.len() && (#[trigger] spec_update_target(cs[i], target, previous)) is Some
                implies r.contains(spec_update_target(cs[i], target, previous).unwrap()) by {
            let name = spec_update_target(cs[i], target, previous).unwrap();
            if i < init.len() {
                assert(cs[i] == init[i]);
                let k = choose|k: int| 0 <= k < rest.len() && rest[k] == name;
                assert(r[k] == rest[k]);
            } else {
                assert(r[r.len() - 1] == name);
            }
        }
    }
}


/// Trimming removes the leading `/` characters and nothing else: the result is
/// what follows a run of `/` at the start, and it does not start with `/`.
pub proof fn lemma_trim_leading_slashes(s: Seq<char>)
    ensures
        exists|j: int|
            0 <= j <= s.len() && (forall|t: int| 0 <= t < j ==> s[t] == '/') && spec_trim_leading_slashes(
                s,
            ) == s.subrange(j, s.len() as int),
        spec_trim_leading_slashes(s).len() > 0 ==> spec_trim_leading_slashes(s)[0] != '/',
    decreases s.len(),
{
    if s.len() > 0 && s[0] == '/' {
        let rest = s.drop_first();
        lemma_trim_leading_slashes(rest);
        let j = choose|j: int|
            0 <= j <= rest.len() && (forall|t: int| 0 <= t < j ==> rest[t] == '/')
                && spec_trim_leading_slashes(rest) == rest.subrange(j, rest.len() as int);
        assert(rest.subrange(j, rest.len() as int) =~= s.subrange(j + 1, s.len() as int));
        assert forall|t: int| 0 <= t < j + 1 implies s[t] == '/' by {
            if t > 0 {
                assert(s[t] == rest[t - 1]);
            }
        }
    } else {
        assert(s.subrange(0, s.len() as int) =~= s);
    }
}

/// `name` is the name of a listed container that runs `wanted`, compared as
/// whole strings.
pub open spec fn is_name_of_container_running(
    cs: Seq<ContainerSummary>,
    wanted: Seq<char>,
    name: Seq<char>,
) -> bool {
    exists|i: int|
        #![trigger cs[i]]
        0 <= i < cs.len() && cs[i].image is Some && cs[i].image.unwrap()@ == wanted
            && spec_container_name(cs[i]) == name
}

/// An image update restarts exactly the listed containers that run the wanted
/// image (the previous one where given, else the target), compared as whole
/// strings, and that have a non-empty name: every restarted name is such a
/// container's name, and every such container's name is restarted. The name is
/// the first name without its leading `/`, or else the id.
pub proof fn lemma_update_targets_run_the_wanted_image(
    cs: Seq<ContainerSummary>,
    target: Seq<char>,
    previous: Option<Seq<char>>,
)
    ensures
        forall|k: int|
            #![trigger spec_update_targets(cs, target, previous)[k]]
            0 <= k < spec_update_targets(cs, target, previous).len() ==> spec_update_targets(
                cs,
                target,
                previous,
            )[k].len() > 0 && is_name_of_container_running(
                cs,
                match previous {
                    Some(p) => p,
                    None => target,
                },
                spec_update_targets(cs, target, previous)[k],
            ),
        forall|i: int|
            #![trigger cs[i]]
            0 <= i < cs.len() && cs[i].image is Some && cs[i].image.unwrap()@ == match previous {
                Some(p) => p,
                None => target,
            } && spec_container_name(cs[i]).len() > 0 ==> spec_update_targets(
                cs,
                target,
                previous,
            ).contains(spec_container_name(cs[i])),
{
    lemma_update_targets_exact(cs, target, previous);
    let r = spec_update_targets(cs, target, previous);
    let wanted = match previous {
        Some(p) => p,
        None => target,
    };
    assert forall|k: int| 0 <= k < r.len() implies r[k].len() > 0 && is_name_of_container_running(
        cs,
        wanted,
        r[k],
    ) by {
        let i = choose|i: int|
            0 <= i < cs.len() && spec_update_target(cs[i], target, previous) == Some(r[k]);
        assert(cs[i].image is Some);
    }
    assert forall|i: int|
        0 <= i < cs.len() && cs[i].image is Some && cs[i].image.unwrap()@ == wanted
            && spec_container_name(cs[i]).len() > 0 implies r.contains(spec_container_name(cs[i])) by {
        assert(spec_update_target(cs[i], target, previous) == Some(spec_container_name(cs[i])));
    }
}

} // verus!

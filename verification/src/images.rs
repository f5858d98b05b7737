//! Which container images are run on which hardware.
use vstd::prelude::*;
use vstd::slice::slice_subrange;

use crate::json::{extract_json_str, tight_string_field};
use crate::split::{pieces, split, trim, trimmed};
use crate::text::{
    begins_with, chars_of, contains_text, find_any, index_of_any, is_blank, last_index_of_any,
    lemma_rfind_any, occurs, opt, opt_str, rfind_any, same, same_chars, starts_with, string_of,
    strings, texts,
};

verus! {

/// The image of the ordinary container.
pub const EDGENODE_IMAGE: &'static str = "ghcr.io/holo-host/edgenode";

/// What the tags of its images for the other architecture begin with.
pub const EDGENODE_PREFIX: &'static str = "latest-hc";

/// The image of the container that tests the network.
pub const WIND_TUNNEL_RUNNER: &'static str = "ghcr.io/holochain/wind-tunnel-runner";

/// What the tags of its images for the other architecture begin with.
pub const WIND_TUNNEL_PREFIX: &'static str = "latest-";

// ---------------------------------------------------------------------------
// Tags
// ---------------------------------------------------------------------------

/// `a` comes before `b` in the dictionary of their characters.
pub open spec fn precedes(a: Seq<char>, b: Seq<char>) -> bool
    decreases a.len(),
{
    if b.len() == 0 {
        false
    } else if a.len() == 0 {
        true
    } else if a[0] == b[0] {
        precedes(a.drop_first(), b.drop_first())
    } else {
        a[0] < b[0]
    }
}

/// The texts between pairs of quotes.
pub open spec fn quoted_texts(s: Seq<char>) -> Seq<Seq<char>> {
    let parts = split(s, "\""@);
    Seq::new(((parts.len() - 1) / 2) as nat, |k: int| parts[2 * k + 1])
}

/// A tag that may be chosen.
pub open spec fn is_candidate(tag: Seq<char>, prefix: Seq<char>) -> bool {
    starts_with(tag, prefix) && tag != "latest"@
}

/// The greatest of the tags that may be chosen.
pub open spec fn greatest(tags: Seq<Seq<char>>, prefix: Seq<char>) -> Option<Seq<char>>
    decreases tags.len(),
{
    if tags.len() == 0 {
        None
    } else {
        let before = greatest(tags.drop_last(), prefix);
        if !is_candidate(tags.last(), prefix) {
            before
        } else {
            match before {
                None => Some(tags.last()),
                Some(g) => if precedes(g, tags.last()) {
                    Some(tags.last())
                } else {
                    Some(g)
                },
            }
        }
    }
}

/// The first bracket of a list of tags does not come behind the last closing one.
pub open spec fn tags_readable(tags_json: Seq<char>) -> bool {
    match (find_any(tags_json, "["@), rfind_any(tags_json, "]"@)) {
        (Some(start), Some(end)) => start < end,
        _ => true,
    }
}

/// The tag chosen from a list of tags.
pub open spec fn chosen_tag(tags_json: Seq<char>, prefix: Seq<char>) -> Option<Seq<char>> {
    match (find_any(tags_json, "["@), rfind_any(tags_json, "]"@)) {
        (Some(start), Some(end)) => greatest(
            quoted_texts(tags_json.subrange(start + 1, end)),
            prefix,
        ),
        _ => None,
    }
}

/// Whether `a` comes before `b` in the dictionary of their characters.
fn is_before(a: &[char], b: &[char]) -> (r: bool)
    ensures
        r == precedes(a@, b@),
{
    let mut i: usize = 0;
    assert(a@.skip(0) =~= a@);
    assert(b@.skip(0) =~= b@);
    while i < a.len() && i < b.len() && a[i] == b[i]
        invariant
            i <= a@.len(),
            i <= b@.len(),
            precedes(a@, b@) == precedes(a@.skip(i as int), b@.skip(i as int)),
        decreases a@.len() - i,
    {
        assert(a@.skip(i as int).drop_first() =~= a@.skip(i as int + 1));
        assert(b@.skip(i as int).drop_first() =~= b@.skip(i as int + 1));
        i += 1;
    }
    if i == b.len() {
        false
    } else if i == a.len() {
        true
    } else {
        a[i] < b[i]
    }
}

/// Whether a list of tags can be read.
pub fn tags_are_readable(tags_json: &str) -> (r: bool)
    ensures
        r == tags_readable(tags_json@),
{
    let t = chars_of(tags_json);
    match (index_of_any(t.as_slice(), "["), last_index_of_any(t.as_slice(), "]")) {
        (Some(start), Some(end)) => start < end,
        _ => true,
    }
}

/// The tag chosen from a list of tags: the greatest that begins with the prefix.
pub fn pick_arm64_tag(tags_json: &str, prefix: &str) -> (r: Option<String>)
    requires
        tags_readable(tags_json@),
    ensures
        opt(r) == chosen_tag(tags_json@, prefix@),
{
    let t = chars_of(tags_json);
    let p = chars_of(prefix);
    let latest = chars_of("latest");
    let start: usize = match index_of_any(t.as_slice(), "[") {
        Some(start) => start,
        None => {
            return None;
        },
    };
    let end: usize = match last_index_of_any(t.as_slice(), "]") {
        Some(end) => end,
        None => {
            return None;
        },
    };
    proof {
        lemma_rfind_any(t@, "]"@);
    }
    let all = t.as_slice();
    let array = slice_subrange(all, start + 1, end);
    let parts = pieces(array, "\"");
    let count: usize = parts.len();
    let ghost tags = quoted_texts(array@);
    assert(texts(parts@) == split(array@, "\""@));
    let mut best: Option<&[char]> = None;
    let mut k: usize = 1;
    while k < count && k + 1 < count
        invariant
            count == parts@.len(),
            texts(parts@) == split(array@, "\""@),
            tags == quoted_texts(array@),
            k % 2 == 1,
            (k - 1) / 2 <= tags.len(),
            k <= count,
            p@ == prefix@,
            latest@ == "latest"@,
            (match best {
                Some(b) => Some(b@),
                None => None,
            }) == greatest(tags.take((k - 1) / 2), prefix@),
        decreases count - k,
    {
        let tag = parts[k];
        let ghost i = (k as int - 1) / 2;
        assert(tag@ == texts(parts@)[k as int]);
        assert(tags[i] == tag@);
        assert(tags.take(i + 1).drop_last() =~= tags.take(i));
        if begins_with(tag, p.as_slice()) && !same_chars(tag, latest.as_slice()) {
            best = match best {
                None => Some(tag),
                Some(b) => if is_before(b, tag) {
                    Some(tag)
                } else {
                    Some(b)
                },
            };
        }
        k += 2;
        assert((k - 1) / 2 == i + 1);
    }
    assert(tags.take((k - 1) / 2) =~= tags);
    match best {
        Some(b) => Some(string_of(b)),
        None => None,
    }
}

proof fn lemma_precedes_total(a: Seq<char>, b: Seq<char>)
    ensures
        !precedes(a, a),
        a != b ==> precedes(a, b) || precedes(b, a),
        !(precedes(a, b) && precedes(b, a)),
    decreases a.len(),
{
    if a.len() > 0 {
        if b.len() > 0 {
            lemma_precedes_total(a.drop_first(), b.drop_first());
            if a[0] == b[0] && a.drop_first() == b.drop_first() {
                assert(a =~= seq![a[0]] + a.drop_first());
                assert(b =~= seq![b[0]] + b.drop_first());
            }
        } else {
            lemma_precedes_total(a.drop_first(), b);
        }
    } else if b.len() == 0 {
        assert(a =~= b);
    }
}

proof fn lemma_precedes_chain(a: Seq<char>, b: Seq<char>, c: Seq<char>)
    requires
        precedes(a, b),
        precedes(b, c),
    ensures
        precedes(a, c),
    decreases a.len(),
{
    if a.len() > 0 && a[0] == b[0] && b[0] == c[0] {
        lemma_precedes_chain(a.drop_first(), b.drop_first(), c.drop_first());
    }
}

/// The tag chosen is one of those that may be chosen, and none of them comes
/// behind it; there is none only where no tag may be chosen.
pub proof fn law_greatest_tag(tags: Seq<Seq<char>>, prefix: Seq<char>)
    ensures
        greatest(tags, prefix) is None ==> forall|i: int|
            0 <= i < tags.len() ==> !is_candidate(#[trigger] tags[i], prefix),
        greatest(tags, prefix) matches Some(g) ==> tags.contains(g) && is_candidate(g, prefix) && (
        forall|i: int|
            0 <= i < tags.len() && is_candidate(#[trigger] tags[i], prefix) ==> !precedes(
                g,
                tags[i],
            )),
    decreases tags.len(),
{
    if tags.len() > 0 {
        let rest = tags.drop_last();
        law_greatest_tag(rest, prefix);
        assert(tags[tags.len() - 1] == tags.last());
        match greatest(rest, prefix) {
            Some(g) => {
                let at = choose|i: int| 0 <= i < rest.len() && rest[i] == g;
                assert(tags[at] == g);
                lemma_precedes_total(tags.last(), tags.last());
                assert forall|i: int|
                    0 <= i < rest.len() && is_candidate(#[trigger] tags[i], prefix) && precedes(
                        g,
                        tags.last(),
                    ) implies !precedes(tags.last(), tags[i]) by {
                    assert(rest[i] == tags[i]);
                    if precedes(tags.last(), tags[i]) {
                        lemma_precedes_chain(g, tags.last(), tags[i]);
                    }
                }
                assert forall|i: int|
                    0 <= i < rest.len() && is_candidate(
                        #[trigger] tags[i],
                        prefix,
                    ) implies !precedes(g, tags[i]) by {
                    assert(rest[i] == tags[i]);
                }
            },
            None => {
                lemma_precedes_total(tags.last(), tags.last());
                assert forall|i: int| 0 <= i < rest.len() implies !is_candidate(
                    #[trigger] tags[i],
                    prefix,
                ) by {
                    assert(rest[i] == tags[i]);
                }
            },
        }
    }
}

// ---------------------------------------------------------------------------
// Choosing an image
// ---------------------------------------------------------------------------

/// The name of the hardware: what was printed, or the usual one.
pub open spec fn arch_name(output: Option<Seq<char>>) -> Seq<char> {
    match output {
        Some(s) => trim(s),
        None => "x86_64"@,
    }
}

/// The name of the hardware, given what the command that asks for it printed, if
/// it ran.
pub fn detect_arch(output: Option<&str>) -> (r: String)
    ensures
        r@ == arch_name(opt_str(output)),
{
    match output {
        Some(s) => {
            let c = chars_of(s);
            string_of(trimmed(c.as_slice()))
        },
        None => "x86_64".to_owned(),
    }
}

/// What has become known on the way to an image.
#[derive(Debug, PartialEq, Eq)]
pub enum ImageEvent {
    /// The name of the hardware.
    Arch(String),
    /// The manifest of the latest image, empty where there is none.
    Manifest(String),
    /// The reply to the request for a token, empty where there is none.
    Token(String),
    /// The reply to the request for the tags, empty where there is none.
    Tags(String),
}

/// An event with its text as a sequence of characters.
pub enum ImageEventView {
    Arch(Seq<char>),
    Manifest(Seq<char>),
    Token(Seq<char>),
    Tags(Seq<char>),
}

impl View for ImageEvent {
    type V = ImageEventView;

    open spec fn view(&self) -> ImageEventView {
        match *self {
            ImageEvent::Arch(s) => ImageEventView::Arch(s@),
            ImageEvent::Manifest(s) => ImageEventView::Manifest(s@),
            ImageEvent::Token(s) => ImageEventView::Token(s@),
            ImageEvent::Tags(s) => ImageEventView::Tags(s@),
        }
    }
}

/// What to do next on the way to an image.
#[derive(Debug, PartialEq, Eq)]
pub enum ImageStep {
    /// The image has been chosen.
    Chosen(String),
    /// Run a program, given with its arguments, that prints the manifest.
    Inspect(Vec<String>),
    /// Run a program, given with its arguments, that prints a token.
    FetchToken(Vec<String>),
    /// Run a program, given with its arguments, that prints the tags.
    FetchTags(Vec<String>),
}

/// A step with its texts as sequences of characters.
pub enum ImageStepView {
    Chosen(Seq<char>),
    Inspect(Seq<Seq<char>>),
    FetchToken(Seq<Seq<char>>),
    FetchTags(Seq<Seq<char>>),
}

impl View for ImageStep {
    type V = ImageStepView;

    open spec fn view(&self) -> ImageStepView {
        match *self {
            ImageStep::Chosen(s) => ImageStepView::Chosen(s@),
            ImageStep::Inspect(args) => ImageStepView::Inspect(strings(args@)),
            ImageStep::FetchToken(args) => ImageStepView::FetchToken(strings(args@)),
            ImageStep::FetchTags(args) => ImageStepView::FetchTags(strings(args@)),
        }
    }
}

/// `s` without any number of copies of `pat` at its beginning.
pub open spec fn without_prefix(s: Seq<char>, pat: Seq<char>) -> Seq<char>
    decreases s.len(),
{
    if pat.len() > 0 && starts_with(s, pat) {
        without_prefix(s.skip(pat.len() as int), pat)
    } else {
        s
    }
}

/// `s` without any number of copies of `pat` at its beginning.
pub fn strip_copies(s: &str, pat: &str) -> (r: String)
    ensures
        r@ == without_prefix(s@, pat@),
{
    let c = chars_of(s);
    let p = chars_of(pat);
    let all = c.as_slice();
    let end: usize = all.len();
    let width: usize = p.len();
    let mut i: usize = 0;
    assert(c@.skip(0) =~= c@);
    while width > 0 && begins_with(slice_subrange(all, i, end), p.as_slice())
        invariant
            i <= end,
            end == all@.len(),
            width == p@.len(),
            p@ == pat@,
            all@ == s@,
            without_prefix(s@, pat@) == without_prefix(all@.skip(i as int), pat@),
        decreases end - i,
    {
        assert(all@.subrange(i as int, end as int) =~= all@.skip(i as int));
        assert(all@.skip(i as int).skip(width as int) =~= all@.skip(i as int + width as int));
        i += width;
    }
    assert(all@.subrange(i as int, end as int) =~= all@.skip(i as int));
    string_of(slice_subrange(all, i, end))
}

/// An image with the tag of its latest release.
pub open spec fn latest(image: Seq<char>) -> Seq<char> {
    image + ":latest"@
}

/// The part of an image's name that the registry knows it by.
pub open spec fn repo_path(image: Seq<char>) -> Seq<char> {
    without_prefix(image, "ghcr.io/"@)
}

/// What an event leads to on the way to an image. On ordinary hardware, and where
/// the latest image is also made for the other, that is the latest; or else the
/// greatest tag made for the other hardware, where the registry tells one.
pub open spec fn image_step(
    image: Seq<char>,
    prefix: Seq<char>,
    event: ImageEventView,
) -> ImageStepView {
    match event {
        ImageEventView::Arch(arch) => if arch != "aarch64"@ {
            ImageStepView::Chosen(latest(image))
        } else {
            ImageStepView::Inspect(
                seq!["skopeo"@, "inspect"@, "--raw"@, "docker://"@ + latest(image)],
            )
        },
        ImageEventView::Manifest(manifest) => if occurs(manifest, "arm64"@) || occurs(
            manifest,
            "aarch64"@,
        ) {
            ImageStepView::Chosen(latest(image))
        } else {
            ImageStepView::FetchToken(
                seq![
                    "curl"@,
                    "-sf"@,
                    "https://ghcr.io/token?scope=repository:"@ + repo_path(image)
                        + ":pull&service=ghcr.io"@,
                ],
            )
        },
        ImageEventView::Token(reply) => {
            let token = tight_string_field(reply, "token"@);
            if token.len() == 0 {
                ImageStepView::Chosen(latest(image))
            } else {
                ImageStepView::FetchTags(
                    seq![
                        "curl"@,
                        "-sf"@,
                        "-H"@,
                        "Authorization: Bearer "@ + token,
                        "https://ghcr.io/v2/"@ + repo_path(image) + "/tags/list"@,
                    ],
                )
            }
        },
        ImageEventView::Tags(reply) => match chosen_tag(reply, prefix) {
            Some(tag) => ImageStepView::Chosen(image + ":"@ + tag),
            None => ImageStepView::Chosen(latest(image)),
        },
    }
}

/// An event whose text can be read.
pub open spec fn event_readable(event: ImageEventView) -> bool {
    match event {
        ImageEventView::Tags(reply) => tags_readable(reply),
        _ => true,
    }
}

/// An image with the tag of its latest release.
fn latest_of(image: &str) -> (r: String)
    ensures
        r@ == latest(image@),
{
    let mut out = image.to_owned();
    out.append(":latest");
    out
}

/// The next step on the way to an image.
pub fn resolve_image(image_ref: &str, arm64_prefix: &str, event: &ImageEvent) -> (r: ImageStep)
    requires
        event_readable(event@),
    ensures
        r@ == image_step(image_ref@, arm64_prefix@, event@),
{
    match event {
        ImageEvent::Arch(arch) => {
            if !same(arch.as_str(), "aarch64") {
                return ImageStep::Chosen(latest_of(image_ref));
            }
            let mut place = "docker://".to_owned();
            place.append(latest_of(image_ref).as_str());
            let ghost p = place@;
            let args = vec![
                "skopeo".to_owned(),
                "inspect".to_owned(),
                "--raw".to_owned(),
                place,
            ];
            assert(strings(args@) =~= seq!["skopeo"@, "inspect"@, "--raw"@, p]);
            ImageStep::Inspect(args)
        },
        ImageEvent::Manifest(manifest) => {
            let m = chars_of(manifest.as_str());
            let short = chars_of("arm64");
            let long = chars_of("aarch64");
            if contains_text(m.as_slice(), short.as_slice()) || contains_text(
                m.as_slice(),
                long.as_slice(),
            ) {
                return ImageStep::Chosen(latest_of(image_ref));
            }
            let mut place = "https://ghcr.io/token?scope=repository:".to_owned();
            place.append(strip_copies(image_ref, "ghcr.io/").as_str());
            place.append(":pull&service=ghcr.io");
            let ghost p = place@;
            let args = vec!["curl".to_owned(), "-sf".to_owned(), place];
            assert(strings(args@) =~= seq!["curl"@, "-sf"@, p]);
            ImageStep::FetchToken(args)
        },
        ImageEvent::Token(reply) => {
            let token = extract_json_str(reply.as_str(), "token");
            if is_blank(token.as_str()) {
                return ImageStep::Chosen(latest_of(image_ref));
            }
            let mut header = "Authorization: Bearer ".to_owned();
            header.append(token.as_str());
            let mut place = "https://ghcr.io/v2/".to_owned();
            place.append(strip_copies(image_ref, "ghcr.io/").as_str());
            place.append("/tags/list");
            let ghost h = header@;
            let ghost p = place@;
            let args = vec!["curl".to_owned(), "-sf".to_owned(), "-H".to_owned(), header, place];
            assert(strings(args@) =~= seq!["curl"@, "-sf"@, "-H"@, h, p]);
            ImageStep::FetchTags(args)
        },
        ImageEvent::Tags(reply) => match pick_arm64_tag(reply.as_str(), arm64_prefix) {
            Some(tag) => {
                let mut out = image_ref.to_owned();
                out.append(":");
                out.append(tag.as_str());
                ImageStep::Chosen(out)
            },
            None => ImageStep::Chosen(latest_of(image_ref)),
        },
    }
}

/// The next step on the way to the image of the ordinary container.
pub fn resolve_edgenode_image(event: &ImageEvent) -> (r: ImageStep)
    requires
        event_readable(event@),
    ensures
        r@ == image_step(EDGENODE_IMAGE@, EDGENODE_PREFIX@, event@),
{
    resolve_image(EDGENODE_IMAGE, EDGENODE_PREFIX, event)
}

/// The next step on the way to the image of the container that tests the network.
pub fn resolve_wind_tunnel_image(event: &ImageEvent) -> (r: ImageStep)
    requires
        event_readable(event@),
    ensures
        r@ == image_step(WIND_TUNNEL_RUNNER@, WIND_TUNNEL_PREFIX@, event@),
{
    resolve_image(WIND_TUNNEL_RUNNER, WIND_TUNNEL_PREFIX, event)
}

/// Every image chosen is the one asked for, with some tag; each event leads on to
/// the next kind of event or to a choice, and the tags always to a choice.
pub proof fn law_image_keeps_its_name(image: Seq<char>, prefix: Seq<char>, event: ImageEventView)
    ensures
        image_step(image, prefix, event) matches ImageStepView::Chosen(chosen) ==> starts_with(
            chosen,
            image + ":"@,
        ),
        event is Arch ==> image_step(image, prefix, event) is Chosen || image_step(
            image,
            prefix,
            event,
        ) is Inspect,
        event is Manifest ==> image_step(image, prefix, event) is Chosen || image_step(
            image,
            prefix,
            event,
        ) is FetchToken,
        event is Token ==> image_step(image, prefix, event) is Chosen || image_step(
            image,
            prefix,
            event,
        ) is FetchTags,
        event is Tags ==> image_step(image, prefix, event) is Chosen,
{
    reveal_strlit(":latest");
    reveal_strlit(":");
    if let ImageStepView::Chosen(chosen) = image_step(image, prefix, event) {
        assert(chosen.subrange(0, 0 + (image + ":"@).len() as int) =~= image + ":"@);
    }
}

} // verus!

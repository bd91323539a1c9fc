//! Image reference discovery and normalization.
//!
//! The HTML fragment of an article is scanned for image elements (the
//! `soup` crate does the HTML parsing behind a trusted wrapper); each
//! `src` attribute is then classified and normalized into an absolute URL
//! by verified code, with the page's base URL resolving relative
//! references.

use vstd::prelude::*;

use soup::NodeExt;
use soup::QueryBuilderExt;

use crate::FailureKind;
use crate::urls::url_join;
use crate::urls::url_parse;

verus! {

/// The `src` attribute of every image element of an HTML fragment, in
/// document order; `None` stands for an image element without `src`.
pub uninterp spec fn img_srcs_of(html: Seq<char>) -> Seq<Option<Seq<char>>>;

/// Relies on `soup::Soup::new` (HTML parsing), `QueryBuilderExt::tag` /
/// `QueryBuilder::find_all` (every matching element in document order)
/// and `NodeExt::get` (attribute lookup), all deterministic in the
/// fragment alone.
#[verifier::external_body]
fn scan_img_srcs(html: &str) -> (r: Vec<Option<String>>)
    ensures
        r.deep_view() == img_srcs_of(html@),
{
    let soup = soup::Soup::new(html);
    soup.tag("img").find_all().map(|node| node.get("src")).collect()
}

/// The mathematical value of an [`ImageReference`].
pub ghost struct ImageRefV {
    pub raw_src: Seq<char>,
    pub resolved_url: Seq<char>,
    pub local_path: Option<Seq<char>>,
}

/// One image discovered inside article content: the `src` text as it
/// stood in the document, the absolute URL it resolves to, and, once the
/// download stage has placed it, the local file name.
#[derive(Debug)]
pub struct ImageReference {
    /// The `src` attribute exactly as found.
    pub raw_src: String,
    /// The absolute URL the reference resolves to; never relative.
    pub resolved_url: String,
    /// The staged file name, filled in by the download stage.
    pub local_path: Option<String>,
}

impl View for ImageReference {
    type V = ImageRefV;

    open spec fn view(&self) -> ImageRefV {
        ImageRefV {
            raw_src: self.raw_src@,
            resolved_url: self.resolved_url@,
            local_path: self.local_path.deep_view(),
        }
    }
}

impl DeepView for ImageReference {
    type V = ImageRefV;

    open spec fn deep_view(&self) -> ImageRefV {
        self@
    }
}

/// How one `src` value is normalized: keep it if it already parses as an
/// absolute URL; if it is a relative reference, join it against the base;
/// anything else — and a failed join — is invalid.
pub open spec fn resolve_one(src: Seq<char>, base: Seq<char>) -> Result<Seq<char>, FailureKind> {
    match url_parse(src) {
        Ok(u) => Ok(u),
        Err(relative) => if relative {
            match url_join(base, src) {
                Some(u) => Ok(u),
                None => Err(FailureKind::ImageReferenceInvalid),
            }
        } else {
            Err(FailureKind::ImageReferenceInvalid)
        },
    }
}

/// Fail-fast resolution of a sequence of discovered `src` attributes:
/// encounter order is preserved, duplicates are kept, a missing `src` or
/// an unresolvable reference fails the whole sequence.
pub open spec fn resolve_srcs(srcs: Seq<Option<Seq<char>>>, base: Seq<char>) -> Result<
    Seq<ImageRefV>,
    FailureKind,
>
    decreases srcs.len(),
{
    if srcs.len() == 0 {
        Ok(Seq::empty())
    } else {
        match srcs[0] {
            None => Err(FailureKind::ImageReferenceInvalid),
            Some(src) => match resolve_one(src, base) {
                Err(k) => Err(k),
                Ok(u) => match resolve_srcs(srcs.drop_first(), base) {
                    Err(k) => Err(k),
                    Ok(rest) => Ok(
                        seq![ImageRefV { raw_src: src, resolved_url: u, local_path: None }] + rest,
                    ),
                },
            },
        }
    }
}

/// What the resolver produces from an article's optional content: absent
/// content gives the empty sequence, present content the fail-fast
/// resolution of its image references.
pub open spec fn resolve_content(content: Option<Seq<char>>, base: Seq<char>) -> Result<
    Seq<ImageRefV>,
    FailureKind,
> {
    match content {
        None => Ok(Seq::empty()),
        Some(html) => resolve_srcs(img_srcs_of(html), base),
    }
}

/// Best-effort resolution: the references that do resolve, in encounter
/// order; a missing `src` or an unresolvable reference is skipped
/// instead of failing the run.
pub open spec fn resolve_srcs_lenient(srcs: Seq<Option<Seq<char>>>, base: Seq<char>) -> Seq<
    ImageRefV,
>
    decreases srcs.len(),
{
    if srcs.len() == 0 {
        Seq::empty()
    } else {
        let rest = resolve_srcs_lenient(srcs.drop_first(), base);
        match srcs[0] {
            None => rest,
            Some(src) => match resolve_one(src, base) {
                Err(_) => rest,
                Ok(u) => seq![ImageRefV { raw_src: src, resolved_url: u, local_path: None }]
                    + rest,
            },
        }
    }
}

/// What best-effort resolution skips, in encounter order: the `src`
/// text of every reference that does not resolve, with the empty
/// sequence standing for an image element without `src`.
pub open spec fn skipped_srcs(srcs: Seq<Option<Seq<char>>>, base: Seq<char>) -> Seq<Seq<char>>
    decreases srcs.len(),
{
    if srcs.len() == 0 {
        Seq::empty()
    } else {
        let rest = skipped_srcs(srcs.drop_first(), base);
        match srcs[0] {
            None => seq![Seq::<char>::empty()] + rest,
            Some(src) => match resolve_one(src, base) {
                Err(_) => seq![src] + rest,
                Ok(_) => rest,
            },
        }
    }
}

/// Best-effort resolution of an article's optional content: the
/// references that resolve and, beside them, what was skipped.
pub open spec fn resolve_content_lenient(content: Option<Seq<char>>, base: Seq<char>) -> (
    Seq<ImageRefV>,
    Seq<Seq<char>>,
) {
    match content {
        None => (Seq::empty(), Seq::empty()),
        Some(html) => (
            resolve_srcs_lenient(img_srcs_of(html), base),
            skipped_srcs(img_srcs_of(html), base),
        ),
    }
}

/// A successful resolution keeps the encounter order, duplicates
/// included: one reference per discovered image element, each holding
/// its `src` as found, the absolute URL that [`resolve_one`] gives it —
/// so no relative reference survives — and no local file yet.
pub proof fn lemma_resolution_keeps_order(srcs: Seq<Option<Seq<char>>>, base: Seq<char>)
    requires
        resolve_srcs(srcs, base) is Ok,
    ensures
        resolve_srcs(srcs, base)->Ok_0.len() == srcs.len(),
        forall|i: int|
            0 <= i < srcs.len() ==> (#[trigger] srcs[i] matches Some(src) && resolve_one(src, base)
                == Ok::<Seq<char>, FailureKind>(resolve_srcs(srcs, base)->Ok_0[i].resolved_url)
                && resolve_srcs(srcs, base)->Ok_0[i].raw_src == src && resolve_srcs(
                srcs,
                base,
            )->Ok_0[i].local_path is None),
    decreases srcs.len(),
{
    if srcs.len() > 0 {
        lemma_resolution_keeps_order(srcs.drop_first(), base);
        let head = srcs[0]->0;
        let u = resolve_one(head, base)->Ok_0;
        let rest = resolve_srcs(srcs.drop_first(), base)->Ok_0;
        let whole = resolve_srcs(srcs, base)->Ok_0;
        assert(whole =~= seq![
            ImageRefV { raw_src: head, resolved_url: u, local_path: None },
        ] + rest);
        assert forall|i: int| 0 <= i < srcs.len() implies (#[trigger] srcs[i] matches Some(src)
            && resolve_one(src, base) == Ok::<Seq<char>, FailureKind>(whole[i].resolved_url)
            && whole[i].raw_src == src && whole[i].local_path is None) by {
            if i > 0 {
                assert(srcs[i] == srcs.drop_first()[i - 1]);
                assert(whole[i] == rest[i - 1]);
            }
        }
    }
}

/// Normalize one discovered `src` into an absolute URL, resolving a
/// relative reference against `base`.
pub fn resolve_src(src: &str, base: &str) -> (r: Result<String, FailureKind>)
    ensures
        match r {
            Ok(u) => resolve_one(src@, base@) == Ok::<_, FailureKind>(u@),
            Err(k) => resolve_one(src@, base@) == Err::<Seq<char>, _>(k),
        },
{
    match crate::urls::parse_url(src) {
        crate::urls::UrlParseOutcome::Absolute(u) => Ok(u),
        crate::urls::UrlParseOutcome::Relative => match crate::urls::join_url(base, src) {
            Some(u) => Ok(u),
            None => Err(FailureKind::ImageReferenceInvalid),
        },
        crate::urls::UrlParseOutcome::Invalid => Err(FailureKind::ImageReferenceInvalid),
    }
}

/// Scan the article content for image elements and normalize every
/// reference into an absolute URL, using `base` for relative references.
/// Absent content yields an empty sequence, not an error.
pub fn resolve_references(content: &Option<String>, base: &str) -> (r: Result<
    Vec<ImageReference>,
    FailureKind,
>)
    ensures
        match r {
            Ok(refs) => resolve_content(content.deep_view(), base@) == Ok::<_, FailureKind>(
                refs.deep_view(),
            ),
            Err(k) => resolve_content(content.deep_view(), base@) == Err::<Seq<ImageRefV>, _>(k),
        },
{
    let html = match content {
        None => {
            let refs: Vec<ImageReference> = Vec::new();
            proof {
                assert(refs.deep_view() =~= Seq::<ImageRefV>::empty());
            }
            return Ok(refs);
        },
        Some(html) => html,
    };
    let srcs = scan_img_srcs(html.as_str());
    let ghost all: Seq<Option<Seq<char>>> = srcs.deep_view();
    let mut refs: Vec<ImageReference> = Vec::new();
    let mut i: usize = 0;
    proof {
        assert(all.skip(0) =~= all);
        assert(refs.deep_view() =~= Seq::<ImageRefV>::empty());
    }
    while i < srcs.len()
        invariant
            i <= srcs.len(),
            all == srcs.deep_view(),
            resolve_content(content.deep_view(), base@) == resolve_srcs(all, base@),
            all.len() == srcs.len(),
            forall|k: int| 0 <= k < all.len() ==> all[k] == #[trigger] srcs[k].deep_view(),
            resolve_srcs(all, base@) == (match resolve_srcs(all.skip(i as int), base@) {
                Ok(rest) => Ok::<_, FailureKind>(refs.deep_view() + rest),
                Err(k) => Err::<Seq<ImageRefV>, _>(k),
            }),
        decreases srcs.len() - i,
    {
        let ghost suffix = all.skip(i as int);
        proof {
            assert(suffix[0] == all[i as int]);
            assert(suffix.drop_first() =~= all.skip(i + 1 as int));
        }
        proof {
            assert(all[i as int] == srcs[i as int].deep_view());
        }
        let src = match &srcs[i] {
            None => {
                proof {
                    assert(resolve_srcs(suffix, base@) == Err::<Seq<ImageRefV>, _>(
                        FailureKind::ImageReferenceInvalid,
                    ));
                }
                return Err(FailureKind::ImageReferenceInvalid);
            },
            Some(src) => src,
        };
        proof {
            assert(suffix[0] == Some(src@));
        }
        let resolved = match resolve_src(src.as_str(), base) {
            Err(k) => {
                proof {
                    assert(resolve_srcs(suffix, base@) == Err::<Seq<ImageRefV>, _>(k));
                }
                return Err(k);
            },
            Ok(u) => u,
        };
        let ghost before = refs.deep_view();
        refs.push(
            ImageReference { raw_src: src.clone(), resolved_url: resolved, local_path: None },
        );
        proof {
            let added = ImageRefV { raw_src: src@, resolved_url: resolved@, local_path: None };
            assert(refs.deep_view() =~= before + seq![added]);
            if resolve_srcs(all.skip(i + 1 as int), base@) is Ok {
                let rest = resolve_srcs(all.skip(i + 1 as int), base@)->Ok_0;
                assert((before + (seq![added] + rest)) =~= (refs.deep_view() + rest));
            }
        }
        i = i + 1;
    }
    proof {
        assert(all.skip(srcs.len() as int) =~= Seq::<Option<Seq<char>>>::empty());
        assert(refs.deep_view() + Seq::<ImageRefV>::empty() =~= refs.deep_view());
    }
    Ok(refs)
}

/// Scan the article content and resolve every reference best-effort:
/// the references that resolve, in order, beside the `src` text of each
/// skipped one (the empty string standing for an image element without
/// `src`). Nothing fails: a bad reference is reported, not fatal.
pub fn resolve_references_lenient(content: &Option<String>, base: &str) -> (r: (
    Vec<ImageReference>,
    Vec<String>,
))
    ensures
        (r.0.deep_view(), r.1.deep_view()) == resolve_content_lenient(content.deep_view(), base@),
{
    let html = match content {
        None => {
            let refs: Vec<ImageReference> = Vec::new();
            let skipped: Vec<String> = Vec::new();
            proof {
                assert(refs.deep_view() =~= Seq::<ImageRefV>::empty());
                assert(skipped.deep_view() =~= Seq::<Seq<char>>::empty());
            }
            return (refs, skipped);
        },
        Some(html) => html,
    };
    let srcs = scan_img_srcs(html.as_str());
    let ghost all: Seq<Option<Seq<char>>> = srcs.deep_view();
    let mut refs: Vec<ImageReference> = Vec::new();
    let mut skipped: Vec<String> = Vec::new();
    let mut i: usize = 0;
    proof {
        assert(all.skip(0) =~= all);
        assert(refs.deep_view() =~= Seq::<ImageRefV>::empty());
        assert(skipped.deep_view() =~= Seq::<Seq<char>>::empty());
    }
    while i < srcs.len()
        invariant
            i <= srcs.len(),
            all == srcs.deep_view(),
            all.len() == srcs.len(),
            forall|k: int| 0 <= k < all.len() ==> all[k] == #[trigger] srcs[k].deep_view(),
            resolve_content_lenient(content.deep_view(), base@) == (
                resolve_srcs_lenient(all, base@),
                skipped_srcs(all, base@),
            ),
            resolve_srcs_lenient(all, base@) == refs.deep_view() + resolve_srcs_lenient(
                all.skip(i as int),
                base@,
            ),
            skipped_srcs(all, base@) == skipped.deep_view() + skipped_srcs(
                all.skip(i as int),
                base@,
            ),
        decreases srcs.len() - i,
    {
        let ghost suffix = all.skip(i as int);
        proof {
            assert(suffix[0] == all[i as int]);
            assert(suffix.drop_first() =~= all.skip(i + 1 as int));
            assert(all[i as int] == srcs[i as int].deep_view());
        }
        match &srcs[i] {
            None => {
                let ghost before = skipped.deep_view();
                skipped.push(String::new());
                proof {
                    assert(skipped.deep_view() =~= before.push(Seq::<char>::empty()));
                    assert(before + (seq![Seq::<char>::empty()] + skipped_srcs(
                        all.skip(i + 1 as int),
                        base@,
                    )) =~= skipped.deep_view() + skipped_srcs(all.skip(i + 1 as int), base@));
                }
            },
            Some(src) => {
                match resolve_src(src.as_str(), base) {
                    Ok(u) => {
                        let ghost before = refs.deep_view();
                        let added = ImageReference {
                            raw_src: src.clone(),
                            resolved_url: u,
                            local_path: None,
                        };
                        proof {
                            let ghost addedv = added@;
                            assert(before.push(addedv) =~= before + seq![addedv]);
                        }
                        refs.push(added);
                        proof {
                            assert(before + (seq![refs.deep_view().last()]
                                + resolve_srcs_lenient(all.skip(i + 1 as int), base@)) =~= refs
                                .deep_view() + resolve_srcs_lenient(
                                all.skip(i + 1 as int),
                                base@,
                            ));
                        }
                    },
                    Err(_) => {
                        let ghost before = skipped.deep_view();
                        skipped.push(src.clone());
                        proof {
                            assert(skipped.deep_view() =~= before.push(src@));
                            assert(before + (seq![src@] + skipped_srcs(
                                all.skip(i + 1 as int),
                                base@,
                            )) =~= skipped.deep_view() + skipped_srcs(
                                all.skip(i + 1 as int),
                                base@,
                            ));
                        }
                    },
                }
            },
        }
        i = i + 1;
    }
    proof {
        assert(all.skip(srcs.len() as int) =~= Seq::<Option<Seq<char>>>::empty());
        assert(refs.deep_view() + Seq::<ImageRefV>::empty() =~= refs.deep_view());
        assert(skipped.deep_view() + Seq::<Seq<char>>::empty() =~= skipped.deep_view());
    }
    (refs, skipped)
}

} // verus!

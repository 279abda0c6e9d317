//! The compute half of the image endpoints: parameter defaults, prompt
//! enhancement, the upstream request bodies, and the fan-in of parallel
//! generation results.
use vstd::prelude::*;

use crate::models::{GeminiContent, GeminiEnvelope, GeminiPart, GeminiPartV,
    GeminiRequestBody, GenerationConfig, GenerationConfigV, ImageConfig, ImageConfigV};
use crate::strutil::contains_seq;
use crate::strutil::str_eq;

verus! {

/// The default image model.
pub const IMAGE_MODEL: &'static str = "gemini-3-pro-image";

/// Suffix added for `hd` quality.
pub const HD_SUFFIX: &'static str = ", (high quality, highly detailed, 4k resolution, hdr)";

/// Suffix added for the `vivid` style.
pub const VIVID_SUFFIX: &'static str = ", (vivid colors, dramatic lighting, rich details)";

/// Suffix added for the `natural` style.
pub const NATURAL_SUFFIX: &'static str = ", (natural lighting, realistic, photorealistic)";

/// The enhanced prompt: the `hd` suffix when quality is `hd`, then the
/// style's suffix for `vivid` or `natural`.
pub open spec fn enhanced_prompt(prompt: Seq<char>, quality: Seq<char>, style: Seq<char>) -> Seq<
    char,
> {
    let p1 = if quality == "hd"@ {
        prompt + HD_SUFFIX@
    } else {
        prompt
    };
    if style == "vivid"@ {
        p1 + VIVID_SUFFIX@
    } else if style == "natural"@ {
        p1 + NATURAL_SUFFIX@
    } else {
        p1
    }
}

/// Enhances a generation prompt for the requested quality and style.
pub fn enhance_prompt(prompt: &str, quality: &str, style: &str) -> (r: String)
    ensures
        r@ == enhanced_prompt(prompt@, quality@, style@),
{
    let mut p = String::from_str(prompt);
    if str_eq(quality, "hd") {
        p.append(HD_SUFFIX);
    }
    if str_eq(style, "vivid") {
        p.append(VIVID_SUFFIX);
    } else if str_eq(style, "natural") {
        p.append(NATURAL_SUFFIX);
    }
    p
}

/// The edit endpoint's quality hint for an `image_size` field: `4K` asks for
/// `hd`, `2K` for `medium`, anything else nothing.
pub fn edit_quality_of_image_size(image_size: Option<&str>) -> (r: Option<String>)
    ensures
        match image_size {
            Some(s) => if s@ == "4K"@ {
                r matches Some(q) && q@ == "hd"@
            } else if s@ == "2K"@ {
                r matches Some(q) && q@ == "medium"@
            } else {
                r is None
            },
            None => r is None,
        },
{
    match image_size {
        Some(s) => {
            if str_eq(s, "4K") {
                Some(String::from_str("hd"))
            } else if str_eq(s, "2K") {
                Some(String::from_str("medium"))
            } else {
                None
            }
        },
        None => None,
    }
}

/// The edit prompt with its optional style note appended.
pub fn edit_prompt_with_style(prompt: &str, style: Option<&str>) -> (r: String)
    ensures
        match style {
            Some(s) => r@ == prompt@ + ", style: "@ + s@,
            None => r@ == prompt@,
        },
{
    let mut p = String::from_str(prompt);
    match style {
        Some(s) => {
            p.append(", style: ");
            p.append(s);
        },
        None => {},
    }
    p
}

/// The aspect ratio a size field asks for: the known pixel sizes map to
/// their ratios, an explicit ratio passes through, anything else is square.
pub open spec fn aspect_ratio_of(size: Seq<char>) -> Seq<char> {
    if size == "1024x1024"@ {
        "1:1"@
    } else if size == "1536x1024"@ {
        "3:2"@
    } else if size == "1024x1536"@ {
        "2:3"@
    } else if size == "1792x1024"@ {
        "16:9"@
    } else if size == "1024x1792"@ {
        "9:16"@
    } else if contains_seq(size, ":"@) {
        size
    } else {
        "1:1"@
    }
}

/// The rendered image size a quality hint asks for: `hd` renders at 4K,
/// `medium` at 2K, anything else at the default.
pub open spec fn image_size_of_quality(q: Seq<char>) -> Option<Seq<char>> {
    if q == "hd"@ {
        Some("4K"@)
    } else if q == "medium"@ {
        Some("2K"@)
    } else {
        None
    }
}

/// The image configuration of a generation call.
pub open spec fn gen_image_config_of(size: Seq<char>, quality: Seq<char>) -> ImageConfigV {
    ImageConfigV { aspect_ratio: aspect_ratio_of(size), image_size: image_size_of_quality(quality) }
}

fn aspect_ratio_exec(size: &str) -> (r: String)
    ensures
        r@ == aspect_ratio_of(size@),
{
    if str_eq(size, "1024x1024") {
        String::from_str("1:1")
    } else if str_eq(size, "1536x1024") {
        String::from_str("3:2")
    } else if str_eq(size, "1024x1536") {
        String::from_str("2:3")
    } else if str_eq(size, "1792x1024") {
        String::from_str("16:9")
    } else if str_eq(size, "1024x1792") {
        String::from_str("9:16")
    } else if crate::strutil::str_contains(size, ":") {
        String::from_str(size)
    } else {
        String::from_str("1:1")
    }
}

fn image_size_of_quality_exec(q: &str) -> (r: Option<String>)
    ensures
        r.deep_view() == image_size_of_quality(q@),
{
    if str_eq(q, "hd") {
        Some(String::from_str("4K"))
    } else if str_eq(q, "medium") {
        Some(String::from_str("2K"))
    } else {
        None
    }
}

/// Parses the size and quality fields of a generation call into the
/// upstream image configuration.
pub fn parse_image_config(size: &str, quality: &str) -> (ic: ImageConfig)
    ensures
        ic.deep_view() == gen_image_config_of(size@, quality@),
{
    ImageConfig {
        aspect_ratio: aspect_ratio_exec(size),
        image_size: image_size_of_quality_exec(quality),
    }
}

/// Builds the upstream body of one image-generation call: a single user turn
/// with the enhanced prompt, one candidate with the parsed image
/// configuration, safety off, an `agent-` request id, under the `image_gen`
/// request type.
pub fn build_image_generation_body(
    project_id: &str,
    final_prompt: &str,
    size: &str,
    quality: &str,
) -> (env: GeminiEnvelope)
    ensures
        env.deep_view().project == project_id@,
        env.deep_view().model == IMAGE_MODEL@,
        env.deep_view().user_agent == "antigravity"@,
        env.deep_view().request_type == "image_gen"@,
        crate::strutil::is_prefix_of(env.deep_view().request_id, "agent-"@),
        env.deep_view().request.contents.len() == 1,
        env.deep_view().request.contents[0].role == "user"@,
        env.deep_view().request.contents[0].parts == seq![
            GeminiPartV::Text { text: final_prompt@ },
        ],
        env.deep_view().request.generation_config == (GenerationConfigV {
            candidate_count: Some(1u32),
            max_output_tokens: None,
            temperature_milli: None,
            top_p_milli: None,
            top_k: None,
            stop_sequences: Seq::empty(),
            thinking_budget: None,
            include_thoughts: false,
            image_config: Some(gen_image_config_of(size@, quality@)),
        }),
        crate::transform::safety_off(env.deep_view().request.safety_settings),
{
    let mut parts: Vec<GeminiPart> = Vec::new();
    parts.push(GeminiPart::Text { text: String::from_str(final_prompt) });
    proof {
        assert(parts.deep_view() =~= seq![GeminiPartV::Text { text: final_prompt@ }]);
    }
    let mut contents: Vec<GeminiContent> = Vec::new();
    contents.push(GeminiContent { role: String::from_str("user"), parts });
    let stop_sequences: Vec<String> = Vec::new();
    proof {
        assert(stop_sequences.deep_view() =~= Seq::<Seq<char>>::empty());
    }
    let body = GeminiRequestBody {
        system_instruction: None,
        contents,
        tools: Vec::new(),
        generation_config: GenerationConfig {
            candidate_count: Some(1),
            max_output_tokens: None,
            temperature_milli: None,
            top_p_milli: None,
            top_k: None,
            stop_sequences,
            thinking_budget: None,
            include_thoughts: false,
            image_config: Some(parse_image_config(size, quality)),
        },
        safety_settings: crate::transform::build_safety_settings(),
    };
    GeminiEnvelope {
        project: String::from_str(project_id),
        request_id: crate::outside::agent_request_id(),
        model: String::from_str(IMAGE_MODEL),
        user_agent: String::from_str("antigravity"),
        request_type: String::from_str("image_gen"),
        request: body,
    }
}

/// The image configuration of an edit call: the aspect ratio comes from the
/// explicit `aspect_ratio` field when given, else from `size`; the rendered
/// size follows the `image_size` field through its quality hint (`4K` asks
/// for `hd`, `2K` for `medium`).
pub open spec fn edit_image_config_of(
    size: Seq<char>,
    aspect_ratio: Option<Seq<char>>,
    image_size: Option<Seq<char>>,
) -> ImageConfigV {
    let size_input = match aspect_ratio {
        Some(a) => a,
        None => size,
    };
    let quality = match image_size {
        Some(s) => if s == "4K"@ {
            Some("hd"@)
        } else if s == "2K"@ {
            Some("medium"@)
        } else {
            None
        },
        None => None,
    };
    ImageConfigV {
        aspect_ratio: aspect_ratio_of(size_input),
        image_size: match quality {
            Some(q) => image_size_of_quality(q),
            None => None,
        },
    }
}

/// Builds the upstream body of an image-edit call: the prompt, then the main
/// image and mask as PNG, then every reference image as JPEG (each encoded
/// with the standard base64 alphabet), one candidate with the edit's fixed
/// generation parameters and image configuration, under an `img-edit-`
/// request id.
pub fn build_image_edit_body(
    project_id: &str,
    model: &str,
    final_prompt: &str,
    size: &str,
    aspect_ratio: Option<&str>,
    image_size: Option<&str>,
    image_bytes: Option<Vec<u8>>,
    mask_bytes: Option<Vec<u8>>,
    reference_images: Vec<Vec<u8>>,
) -> (env: GeminiEnvelope)
    requires
        image_bytes matches Some(b) ==> b@.len() <= 0x0fff_ffff_ffff_ffff,
        mask_bytes matches Some(b) ==> b@.len() <= 0x0fff_ffff_ffff_ffff,
        forall|k: int| 0 <= k < reference_images@.len() ==> (#[trigger] reference_images@[
            k
        ])@.len() <= 0x0fff_ffff_ffff_ffff,
    ensures
        env.deep_view().project == project_id@,
        env.deep_view().model == model@,
        env.deep_view().user_agent == "antigravity"@,
        env.deep_view().request_type == "image_gen"@,
        crate::strutil::is_prefix_of(env.deep_view().request_id, "img-edit-"@),
        env.deep_view().request.contents.len() == 1,
        env.deep_view().request.contents[0].role == "user"@,
        env.deep_view().request.contents[0].parts == ({
            let p0 = seq![GeminiPartV::Text { text: final_prompt@ }];
            let p1 = match image_bytes.deep_view() {
                Some(d) => p0.push(
                    GeminiPartV::InlineData {
                        mime_type: "image/png"@,
                        data: crate::outside::base64_of(d),
                    },
                ),
                None => p0,
            };
            let p2 = match mask_bytes.deep_view() {
                Some(d) => p1.push(
                    GeminiPartV::InlineData {
                        mime_type: "image/png"@,
                        data: crate::outside::base64_of(d),
                    },
                ),
                None => p1,
            };
            p2 + reference_images.deep_view().map_values(
                |d: Seq<u8>| GeminiPartV::InlineData {
                    mime_type: "image/jpeg"@,
                    data: crate::outside::base64_of(d),
                },
            )
        }),
        env.deep_view().request.generation_config == (GenerationConfigV {
            candidate_count: Some(1u32),
            max_output_tokens: Some(8192u64),
            temperature_milli: Some(1000u32),
            top_p_milli: Some(950u32),
            top_k: Some(40u32),
            stop_sequences: Seq::empty(),
            thinking_budget: None,
            include_thoughts: false,
            image_config: Some(
                edit_image_config_of(size@, aspect_ratio.deep_view(), image_size.deep_view()),
            ),
        }),
        crate::transform::safety_off(env.deep_view().request.safety_settings),
{
    let mut parts: Vec<GeminiPart> = Vec::new();
    parts.push(GeminiPart::Text { text: String::from_str(final_prompt) });
    proof {
        assert(parts.deep_view() =~= seq![GeminiPartV::Text { text: final_prompt@ }]);
    }
    match image_bytes {
        Some(b) => {
            let ghost p0 = parts.deep_view();
            let ghost dv = b.deep_view();
            proof {
                assert(dv =~= b@);
            }
            let d = crate::outside::b64_standard_encode(&b);
            parts.push(GeminiPart::InlineData { mime_type: String::from_str("image/png"), data: d });
            proof {
                assert(parts.deep_view() =~= p0.push(
                    GeminiPartV::InlineData {
                        mime_type: "image/png"@,
                        data: crate::outside::base64_of(dv),
                    },
                ));
            }
        },
        None => {},
    }
    match mask_bytes {
        Some(b) => {
            let ghost p1 = parts.deep_view();
            let ghost dv = b.deep_view();
            proof {
                assert(dv =~= b@);
            }
            let d = crate::outside::b64_standard_encode(&b);
            parts.push(GeminiPart::InlineData { mime_type: String::from_str("image/png"), data: d });
            proof {
                assert(parts.deep_view() =~= p1.push(
                    GeminiPartV::InlineData {
                        mime_type: "image/png"@,
                        data: crate::outside::base64_of(dv),
                    },
                ));
            }
        },
        None => {},
    }
    let ghost p2 = parts.deep_view();
    let ghost refs0 = reference_images.deep_view();
    let mut refs = reference_images;
    while refs.len() > 0
        invariant
            refs.deep_view().len() <= refs0.len(),
            refs@.len() == refs.deep_view().len(),
            forall|k: int| 0 <= k < refs.deep_view().len() ==> refs.deep_view()[k] == refs0[refs0.len() - refs.deep_view().len() + k],
            forall|k: int| 0 <= k < refs@.len() ==> (#[trigger] refs@[k])@.len()
                <= 0x0fff_ffff_ffff_ffff,
            parts.deep_view() == p2 + refs0.take(refs0.len() - refs.deep_view().len()).map_values(
                |d: Seq<u8>| GeminiPartV::InlineData {
                    mime_type: "image/jpeg"@,
                    data: crate::outside::base64_of(d),
                },
            ),
        decreases refs.len(),
    {
        let ghost done = refs0.len() - refs.deep_view().len();
        let ghost pp = parts.deep_view();
        let ghost rr = refs.deep_view();
        let ghost rre = refs@;
        let b = refs.remove(0);
        proof {
            assert(refs.deep_view() =~= rr.skip(1));
            assert(b == rre[0]);
            assert(b.deep_view() == rr[0]);
            assert(b.deep_view() == refs0[done]);
            assert(b.deep_view() =~= b@);
        }
        let d = crate::outside::b64_standard_encode(&b);
        parts.push(GeminiPart::InlineData { mime_type: String::from_str("image/jpeg"), data: d });
        proof {
            assert(parts.deep_view() =~= pp.push(
                GeminiPartV::InlineData {
                    mime_type: "image/jpeg"@,
                    data: crate::outside::base64_of(refs0[done]),
                },
            ));
            assert(refs0.take(done + 1).drop_last() =~= refs0.take(done));
            assert(refs0.take(done + 1).map_values(
                |x: Seq<u8>| GeminiPartV::InlineData {
                    mime_type: "image/jpeg"@,
                    data: crate::outside::base64_of(x),
                },
            ) =~= refs0.take(done).map_values(
                |x: Seq<u8>| GeminiPartV::InlineData {
                    mime_type: "image/jpeg"@,
                    data: crate::outside::base64_of(x),
                },
            ).push(
                GeminiPartV::InlineData {
                    mime_type: "image/jpeg"@,
                    data: crate::outside::base64_of(refs0[done]),
                },
            ));
            assert(parts.deep_view() =~= p2 + refs0.take(done + 1).map_values(
                |x: Seq<u8>| GeminiPartV::InlineData {
                    mime_type: "image/jpeg"@,
                    data: crate::outside::base64_of(x),
                },
            ));
        }
    }
    proof {
        assert(refs0.take(refs0.len() as int) =~= refs0);
    }
    let mut contents: Vec<GeminiContent> = Vec::new();
    contents.push(GeminiContent { role: String::from_str("user"), parts });
    let size_input: &str = match aspect_ratio {
        Some(a) => a,
        None => size,
    };
    let quality = edit_quality_of_image_size(image_size);
    let rendered_size = match &quality {
        Some(q) => image_size_of_quality_exec(q.as_str()),
        None => None,
    };
    let image_config = ImageConfig {
        aspect_ratio: aspect_ratio_exec(size_input),
        image_size: rendered_size,
    };
    proof {
        assert(image_config.deep_view() == edit_image_config_of(
            size@,
            aspect_ratio.deep_view(),
            image_size.deep_view(),
        ));
    }
    let stop_sequences: Vec<String> = Vec::new();
    proof {
        assert(stop_sequences.deep_view() =~= Seq::<Seq<char>>::empty());
    }
    let body = GeminiRequestBody {
        system_instruction: None,
        contents,
        tools: Vec::new(),
        generation_config: GenerationConfig {
            candidate_count: Some(1),
            max_output_tokens: Some(8192),
            temperature_milli: Some(1000),
            top_p_milli: Some(950),
            top_k: Some(40),
            stop_sequences,
            thinking_budget: None,
            include_thoughts: false,
            image_config: Some(image_config),
        },
        safety_settings: crate::transform::build_safety_settings(),
    };
    GeminiEnvelope {
        project: String::from_str(project_id),
        request_id: crate::outside::img_edit_request_id(),
        model: String::from_str(model),
        user_agent: String::from_str("antigravity"),
        request_type: String::from_str("image_gen"),
        request: body,
    }
}

// ---------------------------------------------------------------------------
// Fan-in of parallel results
// ---------------------------------------------------------------------------

/// What one parallel generation task came back with: the parts of its
/// candidate, or an error message.
pub enum ImageTaskOutcome {
    Parts(Vec<GeminiPart>),
    Failed(String),
}

pub enum ImageTaskOutcomeV {
    Parts(Seq<GeminiPartV>),
    Failed(Seq<char>),
}

impl DeepView for ImageTaskOutcome {
    type V = ImageTaskOutcomeV;

    open spec fn deep_view(&self) -> ImageTaskOutcomeV {
        match self {
            ImageTaskOutcome::Parts(ps) => ImageTaskOutcomeV::Parts(ps.deep_view()),
            ImageTaskOutcome::Failed(e) => ImageTaskOutcomeV::Failed(e@),
        }
    }
}

/// One delivered image: a data url, or the bare base64 payload.
#[derive(Debug, Clone, PartialEq)]
pub enum ImageOut {
    Url(String),
    B64(String),
}

pub enum ImageOutV {
    Url(Seq<char>),
    B64(Seq<char>),
}

impl DeepView for ImageOut {
    type V = ImageOutV;

    open spec fn deep_view(&self) -> ImageOutV {
        match self {
            ImageOut::Url(s) => ImageOutV::Url(s@),
            ImageOut::B64(s) => ImageOutV::B64(s@),
        }
    }
}

/// The image delivered for one inline-data part: a `data:` url when the
/// client asked for urls, else the bare payload.
pub open spec fn image_of_inline(mime: Seq<char>, data: Seq<char>, url_form: bool) -> ImageOutV {
    if url_form {
        ImageOutV::Url("data:"@ + mime + ";base64,"@ + data)
    } else {
        ImageOutV::B64(data)
    }
}

/// The images one task outcome contributes: every inline-data part with a
/// non-empty payload, in order.
pub open spec fn images_of_parts(ps: Seq<GeminiPartV>, url_form: bool) -> Seq<ImageOutV>
    decreases ps.len(),
{
    if ps.len() == 0 {
        Seq::empty()
    } else {
        let rest = images_of_parts(ps.drop_last(), url_form);
        match ps.last() {
            GeminiPartV::InlineData { mime_type, data } => {
                if data.len() > 0 {
                    rest.push(image_of_inline(mime_type, data, url_form))
                } else {
                    rest
                }
            },
            _ => rest,
        }
    }
}

/// All images the outcomes contribute, in task order.
pub open spec fn images_of_outcomes(os: Seq<ImageTaskOutcomeV>, url_form: bool) -> Seq<ImageOutV>
    decreases os.len(),
{
    if os.len() == 0 {
        Seq::empty()
    } else {
        images_of_outcomes(os.drop_last(), url_form) + (match os.last() {
            ImageTaskOutcomeV::Parts(ps) => images_of_parts(ps, url_form),
            ImageTaskOutcomeV::Failed(e) => Seq::empty(),
        })
    }
}

/// The error messages of the failed outcomes, joined with `; `.
pub open spec fn joined_errors(os: Seq<ImageTaskOutcomeV>) -> Seq<char>
    decreases os.len(),
{
    if os.len() == 0 {
        Seq::empty()
    } else {
        let rest = joined_errors(os.drop_last());
        match os.last() {
            ImageTaskOutcomeV::Failed(e) => if rest.len() == 0 {
                e
            } else {
                rest + "; "@ + e
            },
            _ => rest,
        }
    }
}

fn images_of_parts_exec(ps: Vec<GeminiPart>, url_form: bool) -> (r: Vec<ImageOut>)
    ensures
        r.deep_view() == images_of_parts(ps.deep_view(), url_form),
{
    let ghost orig = ps.deep_view();
    let mut rest = ps;
    let mut out: Vec<ImageOut> = Vec::new();
    let ghost consumed: int = 0;
    proof {
        assert(orig.take(0) =~= Seq::<GeminiPartV>::empty());
    }
    while rest.len() > 0
        invariant
            0 <= consumed <= orig.len(),
            rest.deep_view().len() == orig.len() - consumed,
            forall|k: int| 0 <= k < rest.deep_view().len() ==> rest.deep_view()[k] == orig[
                consumed + k
            ],
            out.deep_view() == images_of_parts(orig.take(consumed), url_form),
        decreases rest.len(),
    {
        let ghost out0 = out.deep_view();
        let ghost rest0 = rest.deep_view();
        let p = rest.remove(0);
        proof {
            assert(rest.deep_view() =~= rest0.skip(1));
            assert(p.deep_view() == rest0[0]);
            assert(p.deep_view() == orig[consumed]);
            assert(orig.take(consumed + 1).drop_last() =~= orig.take(consumed));
            assert(orig.take(consumed + 1).last() == orig[consumed]);
        }
        match p {
            GeminiPart::InlineData { mime_type, data } => {
                if data.as_str().unicode_len() > 0 {
                    let item = if url_form {
                        let mut u = String::from_str("data:");
                        u.append(mime_type.as_str());
                        u.append(";base64,");
                        u.append(data.as_str());
                        ImageOut::Url(u)
                    } else {
                        ImageOut::B64(data)
                    };
                    let ghost iv = item.deep_view();
                    out.push(item);
                    proof {
                        assert(iv == image_of_inline(
                            orig[consumed]->InlineData_mime_type,
                            orig[consumed]->InlineData_data,
                            url_form,
                        ));
                        assert(out.deep_view() =~= out0.push(iv));
                    }
                }
            },
            _ => {},
        }
        proof {
            consumed = consumed + 1;
        }
    }
    proof {
        assert(orig.take(consumed) =~= orig);
    }
    out
}

/// Joins the parallel generation results: all inline images in task order,
/// or, when none came back, the joined error messages (a fixed note when no
/// task even reported one).
pub fn collect_image_results(outcomes: Vec<ImageTaskOutcome>, url_form: bool) -> (r: Result<
    Vec<ImageOut>,
    String,
>)
    ensures
        r is Ok <==> images_of_outcomes(outcomes.deep_view(), url_form).len() > 0,
        r matches Ok(images) ==> images.deep_view() == images_of_outcomes(
            outcomes.deep_view(),
            url_form,
        ),
        r matches Err(msg) ==> msg@ == (if joined_errors(outcomes.deep_view()).len() > 0 {
            joined_errors(outcomes.deep_view())
        } else {
            "No images generated"@
        }),
{
    let ghost orig = outcomes.deep_view();
    let mut rest = outcomes;
    let mut images: Vec<ImageOut> = Vec::new();
    let mut errors = String::new();
    let ghost consumed: int = 0;
    proof {
        assert(orig.take(0) =~= Seq::<ImageTaskOutcomeV>::empty());
        assert(images.deep_view() =~= images_of_outcomes(orig.take(0), url_form));
        assert(errors@ =~= joined_errors(orig.take(0)));
    }
    while rest.len() > 0
        invariant
            0 <= consumed <= orig.len(),
            rest.deep_view().len() == orig.len() - consumed,
            forall|k: int| 0 <= k < rest.deep_view().len() ==> rest.deep_view()[k] == orig[
                consumed + k
            ],
            images.deep_view() == images_of_outcomes(orig.take(consumed), url_form),
            errors@ == joined_errors(orig.take(consumed)),
        decreases rest.len(),
    {
        let ghost im0 = images.deep_view();
        let ghost er0 = errors@;
        let ghost rest0 = rest.deep_view();
        let o = rest.remove(0);
        proof {
            assert(rest.deep_view() =~= rest0.skip(1));
            assert(o.deep_view() == rest0[0]);
            assert(o.deep_view() == orig[consumed]);
            assert(orig.take(consumed + 1).drop_last() =~= orig.take(consumed));
            assert(orig.take(consumed + 1).last() == orig[consumed]);
        }
        match o {
            ImageTaskOutcome::Parts(ps) => {
                let mut add = images_of_parts_exec(ps, url_form);
                let ghost addv = add.deep_view();
                images.append(&mut add);
                proof {
                    assert(images.deep_view() =~= im0 + addv);
                    assert(images.deep_view() =~= images_of_outcomes(
                        orig.take(consumed + 1),
                        url_form,
                    ));
                }
            },
            ImageTaskOutcome::Failed(e) => {
                if errors.as_str().unicode_len() == 0 {
                    errors = e;
                } else {
                    errors.append("; ");
                    errors.append(e.as_str());
                }
                proof {
                    assert(images.deep_view() =~= images_of_outcomes(
                        orig.take(consumed + 1),
                        url_form,
                    ));
                }
            },
        }
        proof {
            consumed = consumed + 1;
        }
    }
    proof {
        assert(orig.take(consumed) =~= orig);
    }
    if images.len() > 0 {
        Ok(images)
    } else if errors.as_str().unicode_len() > 0 {
        Err(errors)
    } else {
        Err(String::from_str("No images generated"))
    }
}

} // verus!

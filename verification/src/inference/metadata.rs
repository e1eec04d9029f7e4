//! The generation parameters embedded in an image, in the "parameters" text
//! that other image tools read: the prompt, an optional "Negative prompt:"
//! line, and a settings line of comma-separated "Key: value" parts. Writing
//! that text, and reading it back.
use vstd::prelude::*;
use crate::lines::{
    lines_of, split_on, split_once, split_once_text, split_text, starts_with, strip_all_prefix,
    strip_cr, strip_prefix_all, text_lines, text_starts_with, trimmed,
};
use crate::numbers::{float_text, is_float_text, parse_i64_spec, parse_i64_text, parse_u32_spec, parse_u32_text, signed_decimal, signed_decimal_string};
use crate::text::{concat, decimal, decimal_string, join, join_strings, opt_view, trim, views};

verus! {

/// The parameters of a generated image.
#[derive(Debug, Clone)]
pub struct ImageMetadata {
    pub prompt: String,
    pub negative_prompt: Option<String>,
    pub steps: u32,
    /// The guidance scale, as text (as `f64::to_string` writes it, so that
    /// `float_text` holds of it).
    pub cfg_scale: String,
    pub width: u32,
    pub height: u32,
    pub seed: i64,
    pub model: String,
    pub sampler: Option<String>,
    pub scheduler: Option<String>,
}

/// `", {tag} {value}"` for a value that is present, else nothing.
pub open spec fn optional_part(tag: Seq<char>, value: Option<Seq<char>>) -> Seq<char> {
    match value {
        Some(v) => ", "@ + tag + " "@ + v,
        None => Seq::empty(),
    }
}

/// The line of a negative prompt that is present and not empty, else nothing.
pub open spec fn negative_line(negative: Option<Seq<char>>) -> Seq<char> {
    match negative {
        Some(n) => if n.len() > 0 {
            "\nNegative prompt: "@ + n
        } else {
            Seq::empty()
        },
        None => Seq::empty(),
    }
}

/// The settings line.
pub open spec fn settings_text(m: ImageMetadata) -> Seq<char> {
    "Steps: "@ + decimal(m.steps as nat) + ", CFG scale: "@ + m.cfg_scale@ + ", Seed: "@ + signed_decimal(
        m.seed as int,
    ) + ", Size: "@ + decimal(m.width as nat) + "x"@ + decimal(m.height as nat) + ", Model: "@
        + m.model@ + optional_part("Sampler:"@, opt_view(m.sampler)) + optional_part(
        "Scheduler:"@,
        opt_view(m.scheduler),
    )
}

/// The parameters text of `m`: the prompt, the negative prompt line, then
/// the settings line.
pub open spec fn parameters_text(m: ImageMetadata) -> Seq<char> {
    m.prompt@ + negative_line(opt_view(m.negative_prompt)) + "\n"@ + settings_text(m)
}

/// What reading the lines gathers: the prompt lines (those before the
/// negative prompt and the settings), the negative prompt, and the settings
/// line (the last of each).
pub open spec fn scan_lines(lines: Seq<Seq<char>>) -> (Seq<Seq<char>>, Option<Seq<char>>, Option<Seq<char>>)
    decreases lines.len(),
{
    if lines.len() == 0 {
        (seq![], None, None)
    } else {
        let (p, n, s) = scan_lines(lines.drop_last());
        let line = lines.last();
        if starts_with(line, "Negative prompt:"@) {
            (p, Some(trim(strip_all_prefix(line, "Negative prompt:"@))), s)
        } else if starts_with(line, "Steps:"@) {
            (p, n, Some(line))
        } else if n is None && s is None {
            (p.push(line), n, s)
        } else {
            (p, n, s)
        }
    }
}

/// The value of a settings part tagged `tag`, trimmed.
pub open spec fn tag_value(part: Seq<char>, tag: Seq<char>) -> Option<Seq<char>> {
    let p = trim(part);
    if starts_with(p, tag) {
        Some(trim(p.skip(tag.len() as int)))
    } else {
        None
    }
}

/// The value of the last part tagged `tag`.
pub open spec fn tagged(parts: Seq<Seq<char>>, tag: Seq<char>) -> Option<Seq<char>>
    decreases parts.len(),
{
    if parts.len() == 0 {
        None
    } else {
        match tag_value(parts.last(), tag) {
            Some(v) => Some(v),
            None => tagged(parts.drop_last(), tag),
        }
    }
}

/// The two sides of the last size part whose value holds an `x`.
pub open spec fn sized(parts: Seq<Seq<char>>) -> Option<(Seq<char>, Seq<char>)>
    decreases parts.len(),
{
    if parts.len() == 0 {
        None
    } else {
        match tag_value(parts.last(), "Size:"@) {
            Some(v) => match split_once(v, 'x') {
                Some(wh) => Some(wh),
                None => sized(parts.drop_last()),
            },
            None => sized(parts.drop_last()),
        }
    }
}

/// A number read from an optional text, or `default` where it is absent or
/// not a number.
pub open spec fn u32_or(text: Option<Seq<char>>, default: u32) -> u32 {
    match text {
        Some(t) => match parse_u32_spec(t) {
            Some(v) => v,
            None => default,
        },
        None => default,
    }
}

/// `m` holds what reading `params` gives, given its settings line.
pub open spec fn read_from(m: ImageMetadata, params: Seq<char>, settings: Seq<char>) -> bool {
    let (prompt_lines, negative, _) = scan_lines(lines_of(params));
    let parts = split_on(settings, ',');
    &&& m.prompt@ == join(prompt_lines, "\n"@)
    &&& opt_view(m.negative_prompt) == negative
    &&& m.steps == u32_or(tagged(parts, "Steps:"@), 4)
    &&& m.cfg_scale@ == match tagged(parts, "CFG scale:"@) {
        Some(v) => if float_text(v) {
            v
        } else {
            "1"@
        },
        None => "1"@,
    }
    &&& m.seed == match tagged(parts, "Seed:"@) {
        Some(v) => match parse_i64_spec(v) {
            Some(x) => x,
            None => -1i64,
        },
        None => -1i64,
    }
    &&& m.width == match sized(parts) {
        Some((w, _)) => u32_or(Some(w), 1024),
        None => 1024,
    }
    &&& m.height == match sized(parts) {
        Some((_, h)) => u32_or(Some(h), 1024),
        None => 1024,
    }
    &&& m.model@ == match tagged(parts, "Model:"@) {
        Some(v) => v,
        None => "unknown"@,
    }
    &&& opt_view(m.sampler) == tagged(parts, "Sampler:"@)
    &&& opt_view(m.scheduler) == tagged(parts, "Scheduler:"@)
}

/// `a` and `b` hold the same parameters, field by field.
pub open spec fn same_fields(a: ImageMetadata, b: ImageMetadata) -> bool {
    &&& a.prompt@ == b.prompt@
    &&& opt_view(a.negative_prompt) == opt_view(b.negative_prompt)
    &&& a.steps == b.steps
    &&& a.cfg_scale@ == b.cfg_scale@
    &&& a.width == b.width
    &&& a.height == b.height
    &&& a.seed == b.seed
    &&& a.model@ == b.model@
    &&& opt_view(a.sampler) == opt_view(b.sampler)
    &&& opt_view(a.scheduler) == opt_view(b.scheduler)
}

/// A parameters text reads to one set of parameters only.
pub proof fn lemma_read_from_unique(a: ImageMetadata, b: ImageMetadata, params: Seq<char>, settings: Seq<char>)
    requires
        read_from(a, params, settings),
        read_from(b, params, settings),
    ensures
        same_fields(a, b),
{
}

/// The value of `part` if it is tagged `tag`.
fn tag_value_of(part: &str, tag: &str) -> (r: Option<String>)
    ensures
        opt_view(r) == tag_value(part@, tag@),
{
    let p = trimmed(part);
    if text_starts_with(p.as_str(), tag) {
        let rest = strip_once(p.as_str(), tag);
        Some(trimmed(rest.as_str()))
    } else {
        None
    }
}

/// `s` after its first `prefix@.len()` characters.
fn strip_once(s: &str, prefix: &str) -> (r: String)
    requires
        starts_with(s@, prefix@),
    ensures
        r@ == s@.skip(prefix@.len() as int),
{
    let t = crate::text::chars_of(s);
    let n = crate::text::chars_of(prefix).len();
    let r = crate::text::string_of_range(t.as_slice(), n, t.len());
    assert(t@.subrange(n as int, t@.len() as int) =~= t@.skip(n as int));
    r
}

/// Reads a number, or gives `default`.
fn u32_or_default(text: &Option<String>, default: u32) -> (r: u32)
    ensures
        r == u32_or(opt_view(*text), default),
{
    match text {
        Some(t) => match parse_u32_text(t.as_str()) {
            Some(v) => v,
            None => default,
        },
        None => default,
    }
}

/// Writes `", {tag} {value}"` for a value that is present.
fn push_optional(acc: String, tag: &str, value: &Option<String>) -> (r: String)
    ensures
        r@ == acc@ + optional_part(tag@, opt_view(*value)),
{
    match value {
        Some(v) => {
            let a = concat(acc.as_str(), ", ");
            let b = concat(a.as_str(), tag);
            let c = concat(b.as_str(), " ");
            let d = concat(c.as_str(), v.as_str());
            proof {
                reveal_strlit(", ");
                reveal_strlit(" ");
                assert(d@ =~= acc@ + optional_part(tag@, opt_view(*value)));
            }
            d
        },
        None => {
            assert(acc@ + optional_part(tag@, opt_view(*value)) =~= acc@);
            acc
        },
    }
}

impl ImageMetadata {
    /// The parameters text: the prompt; "Negative prompt: ..." on its own
    /// line where there is a non-empty one; then the settings line "Steps:
    /// .., CFG scale: .., Seed: .., Size: WxH, Model: .." with ", Sampler:
    /// .." and ", Scheduler: .." where present.
    #[verifier::rlimit(40)]
    pub fn to_parameters_string(&self) -> (r: String)
        ensures
            r@ == parameters_text(*self),
    {
        proof {
            reveal_strlit("\nNegative prompt: ");
            reveal_strlit("\nSteps: ");
            reveal_strlit(", CFG scale: ");
            reveal_strlit(", Seed: ");
            reveal_strlit(", Size: ");
            reveal_strlit("x");
            reveal_strlit(", Model: ");
            reveal_strlit("Sampler:");
            reveal_strlit("Scheduler:");
            reveal_strlit("Steps: ");
            reveal_strlit("\n");
        }
        let mut params = self.prompt.clone();
        match &self.negative_prompt {
            Some(neg) => {
                let n = crate::text::chars_of(neg.as_str());
                if n.len() > 0 {
                    params = concat(params.as_str(), "\nNegative prompt: ");
                    params = concat(params.as_str(), neg.as_str());
                }
            },
            None => {},
        }
        let ghost head = self.prompt@ + negative_line(opt_view(self.negative_prompt));
        assert(params@ =~= head);
        params = concat(params.as_str(), "\nSteps: ");
        params = concat(params.as_str(), decimal_string(self.steps as u64).as_str());
        params = concat(params.as_str(), ", CFG scale: ");
        params = concat(params.as_str(), self.cfg_scale.as_str());
        params = concat(params.as_str(), ", Seed: ");
        params = concat(params.as_str(), signed_decimal_string(self.seed).as_str());
        params = concat(params.as_str(), ", Size: ");
        params = concat(params.as_str(), decimal_string(self.width as u64).as_str());
        params = concat(params.as_str(), "x");
        params = concat(params.as_str(), decimal_string(self.height as u64).as_str());
        params = concat(params.as_str(), ", Model: ");
        params = concat(params.as_str(), self.model.as_str());
        let ghost mid = params@;
        params = push_optional(params, "Sampler:", &self.sampler);
        params = push_optional(params, "Scheduler:", &self.scheduler);
        assert(params@ =~= parameters_text(*self));
        params
    }

    /// Reads a parameters text: the lines before the negative prompt and the
    /// settings form the prompt; the settings line (the last line starting
    /// "Steps:") is required; each setting takes the value of its last part,
    /// with defaults of 4 steps, guidance "1", seed -1, size 1024x1024 and
    /// model "unknown" where a part is missing or unreadable.
    pub fn from_parameters_string(params: &str) -> (r: Option<ImageMetadata>)
        ensures
            match scan_lines(lines_of(params@)).2 {
                None => r is None,
                Some(settings) => r matches Some(m) && read_from(m, params@, settings),
            },
    {
        proof {
            reveal_strlit("Negative prompt:");
            reveal_strlit("Steps:");
            reveal_strlit("CFG scale:");
            reveal_strlit("Seed:");
            reveal_strlit("Size:");
            reveal_strlit("Model:");
            reveal_strlit("Sampler:");
            reveal_strlit("Scheduler:");
            reveal_strlit("\n");
            reveal_strlit("1");
            reveal_strlit("unknown");
        }
        let lines = text_lines(params);
        let ghost lv = views(lines@);
        let mut prompt_lines: Vec<String> = Vec::new();
        let mut negative: Option<String> = None;
        let mut settings: Option<String> = None;
        let mut i: usize = 0;
        while i < lines.len()
            invariant
                i <= lines@.len(),
                lv == views(lines@),
                lv == lines_of(params@),
                (views(prompt_lines@), opt_view(negative), opt_view(settings)) == scan_lines(
                    lv.take(i as int),
                ),
            decreases lines@.len() - i,
        {
            let line = lines[i].as_str();
            assert(lv.take(i + 1).drop_last() =~= lv.take(i as int));
            assert(lv.take(i + 1).last() == line@);
            if text_starts_with(line, "Negative prompt:") {
                let stripped = strip_prefix_all(line, "Negative prompt:");
                negative = Some(trimmed(stripped.as_str()));
            } else if text_starts_with(line, "Steps:") {
                settings = Some(line.to_string());
            } else if negative.is_none() && settings.is_none() {
                let ghost b = views(prompt_lines@);
                prompt_lines.push(line.to_string());
                assert(views(prompt_lines@) =~= b.push(line@));
            }
            i = i + 1;
        }
        assert(lv.take(lines@.len() as int) =~= lv);
        let settings = match settings {
            Some(s) => s,
            None => {
                return None;
            },
        };
        let prompt = join_strings(prompt_lines.as_slice(), "\n");
        let parts = split_text(settings.as_str(), ',');
        let ghost pv = views(parts@);
        let mut steps_text: Option<String> = None;
        let mut cfg_text: Option<String> = None;
        let mut seed_text: Option<String> = None;
        let mut size: Option<(String, String)> = None;
        let mut model_text: Option<String> = None;
        let mut sampler: Option<String> = None;
        let mut scheduler: Option<String> = None;
        let mut k: usize = 0;
        while k < parts.len()
            invariant
                k <= parts@.len(),
                pv == views(parts@),
                opt_view(steps_text) == tagged(pv.take(k as int), "Steps:"@),
                opt_view(cfg_text) == tagged(pv.take(k as int), "CFG scale:"@),
                opt_view(seed_text) == tagged(pv.take(k as int), "Seed:"@),
                opt_view(model_text) == tagged(pv.take(k as int), "Model:"@),
                opt_view(sampler) == tagged(pv.take(k as int), "Sampler:"@),
                opt_view(scheduler) == tagged(pv.take(k as int), "Scheduler:"@),
                match size {
                    Some((w, h)) => sized(pv.take(k as int)) == Some((w@, h@)),
                    None => sized(pv.take(k as int)) is None,
                },
            decreases parts@.len() - k,
        {
            let part = parts[k].as_str();
            assert(pv.take(k + 1).drop_last() =~= pv.take(k as int));
            assert(pv.take(k + 1).last() == part@);
            let v = tag_value_of(part, "Steps:");
            if v.is_some() {
                steps_text = v;
            }
            let v = tag_value_of(part, "CFG scale:");
            if v.is_some() {
                cfg_text = v;
            }
            let v = tag_value_of(part, "Seed:");
            if v.is_some() {
                seed_text = v;
            }
            let v = tag_value_of(part, "Size:");
            match v {
                Some(val) => match split_once_text(val.as_str(), 'x') {
                    Some(wh) => {
                        size = Some(wh);
                    },
                    None => {},
                },
                None => {},
            }
            let v = tag_value_of(part, "Model:");
            if v.is_some() {
                model_text = v;
            }
            let v = tag_value_of(part, "Sampler:");
            if v.is_some() {
                sampler = v;
            }
            let v = tag_value_of(part, "Scheduler:");
            if v.is_some() {
                scheduler = v;
            }
            k = k + 1;
        }
        assert(pv.take(parts@.len() as int) =~= pv);
        let steps = u32_or_default(&steps_text, 4);
        let cfg_scale = match cfg_text {
            Some(t) => if is_float_text(t.as_str()) {
                t
            } else {
                "1".to_string()
            },
            None => "1".to_string(),
        };
        let seed: i64 = match &seed_text {
            Some(t) => match parse_i64_text(t.as_str()) {
                Some(x) => x,
                None => -1,
            },
            None => -1,
        };
        let (width, height) = match &size {
            Some((w, h)) => (
                u32_or_default(&Some(w.clone()), 1024),
                u32_or_default(&Some(h.clone()), 1024),
            ),
            None => (1024, 1024),
        };
        let model = match model_text {
            Some(t) => t,
            None => "unknown".to_string(),
        };
        Some(
            ImageMetadata {
                prompt,
                negative_prompt: negative,
                steps,
                cfg_scale,
                width,
                height,
                seed,
                model,
                sampler,
                scheduler,
            },
        )
    }
}

/// `s` holds no `c`.
pub open spec fn lacks(s: Seq<char>, c: char) -> bool {
    forall|i: int| 0 <= i < s.len() ==> s[i] != c
}

/// A setting's text reads back as written: trimming leaves it as it is,
/// and it holds no comma and no newline.
pub open spec fn plain_value(v: Seq<char>) -> bool {
    trim(v) == v && lacks(v, ',') && lacks(v, '\n')
}

/// A prompt reads back as written: none of its lines ends in a carriage
/// return or starts like a negative prompt or a settings line.
pub open spec fn prompt_readable(p: Seq<char>) -> bool {
    forall|i: int|
        0 <= i < split_on(p, '\n').len() ==> {
            let piece = #[trigger] split_on(p, '\n')[i];
            &&& !(piece.len() > 0 && piece.last() == '\r')
            &&& !starts_with(piece, "Negative prompt:"@)
            &&& !starts_with(piece, "Steps:"@)
        }
}

/// A negative prompt reads back as written: absent, or not empty, trimmed
/// and on one line.
pub open spec fn negative_readable(n: Option<Seq<char>>) -> bool {
    match n {
        Some(t) => t.len() > 0 && trim(t) == t && lacks(t, '\n'),
        None => true,
    }
}

/// Every part of `m` reads back as written.
pub open spec fn readable(m: ImageMetadata) -> bool {
    &&& prompt_readable(m.prompt@)
    &&& negative_readable(opt_view(m.negative_prompt))
    &&& plain_value(m.cfg_scale@)
    &&& float_text(m.cfg_scale@)
    &&& plain_value(m.model@)
    &&& (m.sampler matches Some(s) ==> plain_value(s@))
    &&& (m.scheduler matches Some(s) ==> plain_value(s@))
}

proof fn lemma_lacks_concat(a: Seq<char>, b: Seq<char>, c: char)
    requires
        lacks(a, c),
        lacks(b, c),
    ensures
        lacks(a + b, c),
{
    assert forall|i: int| 0 <= i < (a + b).len() implies (a + b)[i] != c by {
        if i < a.len() {
            assert((a + b)[i] == a[i]);
        } else {
            assert((a + b)[i] == b[i - a.len()]);
        }
    }
}

proof fn lemma_decimal_plain(n: nat)
    ensures
        lacks(decimal(n), ','),
        lacks(decimal(n), '\n'),
        lacks(decimal(n), 'x'),
        trim(decimal(n)) == decimal(n),
        decimal(n).len() > 0,
{
    crate::numbers::lemma_decimal_digits(n);
    let d = decimal(n);
    assert(crate::numbers::is_digit(d[0]));
    assert(crate::numbers::is_digit(d.last()));
}

proof fn lemma_signed_plain(n: int)
    ensures
        lacks(signed_decimal(n), ','),
        lacks(signed_decimal(n), '\n'),
        trim(signed_decimal(n)) == signed_decimal(n),
{
    if n < 0 {
        lemma_decimal_plain((0 - n) as nat);
        let d = decimal((0 - n) as nat);
        lemma_lacks_concat(seq!['-'], d, ',');
        lemma_lacks_concat(seq!['-'], d, '\n');
        let s = seq!['-'] + d;
        assert(s.last() == d.last());
        assert(crate::numbers::is_digit(d.last())) by {
            crate::numbers::lemma_decimal_digits((0 - n) as nat);
        }
    } else {
        lemma_decimal_plain(n as nat);
    }
}

proof fn lemma_trim_plain(v: Seq<char>)
    requires
        v.len() > 0 ==> !crate::text::is_white_space(v[0]) && !crate::text::is_white_space(v.last()),
    ensures
        trim(v) == v,
{
}

proof fn lemma_trimmed_ends(v: Seq<char>)
    requires
        trim(v) == v,
        v.len() > 0,
    ensures
        !crate::text::is_white_space(v[0]),
        !crate::text::is_white_space(v.last()),
{
    if crate::text::is_white_space(v[0]) {
        lemma_trim_start_shorter(v);
        lemma_trim_end_not_longer(crate::text::trim_start(v));
    }
    if crate::text::is_white_space(v.last()) {
        lemma_trim_end_not_longer(crate::text::trim_start(v));
        lemma_trim_start_not_longer(v);
        if crate::text::trim_start(v).len() == v.len() {
            lemma_trim_start_same(v);
            assert(crate::text::trim_end(v) == crate::text::trim_end(v.drop_last()));
            lemma_trim_end_not_longer(v.drop_last());
        }
    }
}

proof fn lemma_trim_start_not_longer(s: Seq<char>)
    ensures
        crate::text::trim_start(s).len() <= s.len(),
    decreases s.len(),
{
    if s.len() > 0 && crate::text::is_white_space(s[0]) {
        lemma_trim_start_not_longer(s.drop_first());
    }
}

proof fn lemma_trim_start_same(s: Seq<char>)
    requires
        crate::text::trim_start(s).len() == s.len(),
    ensures
        crate::text::trim_start(s) == s,
{
    if s.len() > 0 && crate::text::is_white_space(s[0]) {
        lemma_trim_start_not_longer(s.drop_first());
    }
}

proof fn lemma_trim_start_shorter(s: Seq<char>)
    requires
        s.len() > 0,
        crate::text::is_white_space(s[0]),
    ensures
        crate::text::trim_start(s).len() < s.len(),
{
    lemma_trim_start_not_longer(s.drop_first());
}

proof fn lemma_trim_end_not_longer(s: Seq<char>)
    ensures
        crate::text::trim_end(s).len() <= s.len(),
    decreases s.len(),
{
    if s.len() > 0 && crate::text::is_white_space(s.last()) {
        lemma_trim_end_not_longer(s.drop_last());
    }
}

/// The settings line's parts, in order.
pub open spec fn settings_parts(m: ImageMetadata) -> Seq<Seq<char>> {
    seq![
        "Steps: "@ + decimal(m.steps as nat),
        " CFG scale: "@ + m.cfg_scale@,
        " Seed: "@ + signed_decimal(m.seed as int),
        " Size: "@ + decimal(m.width as nat) + "x"@ + decimal(m.height as nat),
        " Model: "@ + m.model@,
    ] + optional_parts(" Sampler: "@, opt_view(m.sampler)) + optional_parts(
        " Scheduler: "@,
        opt_view(m.scheduler),
    )
}

/// One part for a value that is present, none otherwise.
pub open spec fn optional_parts(lead: Seq<char>, value: Option<Seq<char>>) -> Seq<Seq<char>> {
    match value {
        Some(v) => seq![lead + v],
        None => seq![],
    }
}

proof fn lemma_split_join_inverse(list: Seq<Seq<char>>, sep: char)
    requires
        list.len() >= 1,
        forall|i: int| 0 <= i < list.len() ==> lacks(#[trigger] list[i], sep),
    ensures
        split_on(join(list, seq![sep]), sep) == list,
    decreases list.len(),
{
    if list.len() == 1 {
        crate::lines::lemma_split_single(list[0], sep);
        assert(split_on(list[0], sep) =~= list);
    } else {
        let init = list.drop_last();
        assert forall|i: int| 0 <= i < init.len() implies lacks(#[trigger] init[i], sep) by {
            assert(init[i] == list[i]);
        }
        lemma_split_join_inverse(init, sep);
        crate::lines::lemma_split_append(join(init, seq![sep]), sep, list.last());
        assert(lacks(list[list.len() - 1], sep));
        crate::lines::lemma_split_single(list.last(), sep);
        assert(init + seq![list.last()] =~= list);
    }
}

proof fn lemma_join_push(list: Seq<Seq<char>>, x: Seq<char>, sep: Seq<char>)
    requires
        list.len() >= 1,
    ensures
        join(list.push(x), sep) == join(list, sep) + sep + x,
{
    assert(list.push(x).drop_last() =~= list);
}

/// The settings line is its parts joined with commas.
proof fn lemma_settings_joined(m: ImageMetadata)
    ensures
        settings_text(m) == join(settings_parts(m), seq![',']),
{
    reveal_strlit("Steps: ");
    reveal_strlit(", CFG scale: ");
    reveal_strlit(" CFG scale: ");
    reveal_strlit(", Seed: ");
    reveal_strlit(" Seed: ");
    reveal_strlit(", Size: ");
    reveal_strlit(" Size: ");
    reveal_strlit("x");
    reveal_strlit(", Model: ");
    reveal_strlit(" Model: ");
    reveal_strlit(", ");
    reveal_strlit(" ");
    reveal_strlit("Sampler:");
    reveal_strlit(" Sampler: ");
    reveal_strlit("Scheduler:");
    reveal_strlit(" Scheduler: ");
    let p0 = "Steps: "@ + decimal(m.steps as nat);
    let p1 = " CFG scale: "@ + m.cfg_scale@;
    let p2 = " Seed: "@ + signed_decimal(m.seed as int);
    let p3 = " Size: "@ + decimal(m.width as nat) + "x"@ + decimal(m.height as nat);
    let p4 = " Model: "@ + m.model@;
    let c = seq![','];
    let l1 = seq![p0];
    lemma_join_push(l1, p1, c);
    lemma_join_push(l1.push(p1), p2, c);
    lemma_join_push(l1.push(p1).push(p2), p3, c);
    lemma_join_push(l1.push(p1).push(p2).push(p3), p4, c);
    let base = l1.push(p1).push(p2).push(p3).push(p4);
    let base_text = "Steps: "@ + decimal(m.steps as nat) + ", CFG scale: "@ + m.cfg_scale@ + ", Seed: "@
        + signed_decimal(m.seed as int) + ", Size: "@ + decimal(m.width as nat) + "x"@ + decimal(
        m.height as nat,
    ) + ", Model: "@ + m.model@;
    assert(join(base, c) =~= base_text);
    let with_sampler = base + optional_parts(" Sampler: "@, opt_view(m.sampler));
    match opt_view(m.sampler) {
        Some(sv) => {
            lemma_join_push(base, " Sampler: "@ + sv, c);
            assert(base + seq![" Sampler: "@ + sv] =~= base.push(" Sampler: "@ + sv));
            assert(join(with_sampler, c) =~= base_text + optional_part("Sampler:"@, Some(sv)));
        },
        None => {
            assert(with_sampler =~= base);
            assert(base_text + optional_part("Sampler:"@, None) =~= base_text);
        },
    }
    let sampler_text = base_text + optional_part("Sampler:"@, opt_view(m.sampler));
    assert(join(with_sampler, c) == sampler_text);
    let all = with_sampler + optional_parts(" Scheduler: "@, opt_view(m.scheduler));
    match opt_view(m.scheduler) {
        Some(tv) => {
            lemma_join_push(with_sampler, " Scheduler: "@ + tv, c);
            assert(with_sampler + seq![" Scheduler: "@ + tv] =~= with_sampler.push(" Scheduler: "@ + tv));
            assert(join(all, c) =~= sampler_text + optional_part("Scheduler:"@, Some(tv)));
        },
        None => {
            assert(all =~= with_sampler);
            assert(sampler_text + optional_part("Scheduler:"@, None) =~= sampler_text);
        },
    }
    assert(all == settings_parts(m));
    assert(settings_text(m) =~= sampler_text + optional_part("Scheduler:"@, opt_view(m.scheduler)));
}

/// A tag fit for a settings part: not empty, with no white space at its ends.
pub open spec fn tag_shape(tag: Seq<char>) -> bool {
    &&& tag.len() >= 2
    &&& !crate::text::is_white_space(tag[0])
    &&& !crate::text::is_white_space(tag.last())
}

proof fn lemma_trim_lead_space(x: Seq<char>)
    ensures
        trim(seq![' '] + x) == trim(x),
{
    assert((seq![' '] + x).drop_first() =~= x);
    assert(crate::text::is_white_space(' '));
}

/// A part `lead + tag + " " + v` has the value `v` under its tag.
proof fn lemma_part_value(lead: Seq<char>, tag: Seq<char>, v: Seq<char>)
    requires
        lead == Seq::<char>::empty() || lead == seq![' '],
        tag_shape(tag),
        trim(v) == v,
    ensures
        tag_value(lead + tag + seq![' '] + v, tag) == Some(v),
        starts_with(trim(lead + tag + seq![' '] + v), tag),
{
    let x = tag + seq![' '] + v;
    if lead == seq![' '] {
        assert(lead + tag + seq![' '] + v =~= seq![' '] + x);
        lemma_trim_lead_space(x);
    } else {
        assert(lead + tag + seq![' '] + v =~= x);
    }
    assert(x[0] == tag[0]);
    assert(crate::text::trim_start(x) == x);
    let p = if v.len() == 0 {
        tag
    } else {
        x
    };
    if v.len() == 0 {
        assert(x.drop_last() =~= tag);
        assert(crate::text::is_white_space(' '));
        assert(crate::text::trim_end(x) == crate::text::trim_end(tag));
        assert(crate::text::trim_end(tag) == tag);
    } else {
        lemma_trimmed_ends(v);
        assert(x.last() == v.last());
        assert(crate::text::trim_end(x) == x);
    }
    assert(trim(x) == p);
    assert(p.take(tag.len() as int) =~= tag);
    let rest = p.skip(tag.len() as int);
    if v.len() == 0 {
        assert(rest =~= Seq::<char>::empty());
        assert(trim(rest) =~= v);
    } else {
        assert(rest =~= seq![' '] + v);
        lemma_trim_lead_space(v);
    }
}

/// A text that starts with one tag does not start with a tag that differs
/// from it in its first two characters.
proof fn lemma_other_tag(p: Seq<char>, a: Seq<char>, b: Seq<char>)
    requires
        starts_with(p, a),
        a.len() >= 2,
        b.len() >= 2,
        a[0] != b[0] || a[1] != b[1],
    ensures
        !starts_with(p, b),
{
    assert(p.take(a.len() as int)[0] == p[0]);
    assert(p.take(a.len() as int)[1] == p[1]);
    if starts_with(p, b) {
        assert(p.take(b.len() as int)[0] == p[0]);
        assert(p.take(b.len() as int)[1] == p[1]);
    }
}

/// A part under one tag has no value under another.
proof fn lemma_part_other(lead: Seq<char>, tag: Seq<char>, v: Seq<char>, other: Seq<char>)
    requires
        lead == Seq::<char>::empty() || lead == seq![' '],
        tag_shape(tag),
        trim(v) == v,
        other.len() >= 2,
        tag[0] != other[0] || tag[1] != other[1],
    ensures
        tag_value(lead + tag + seq![' '] + v, other) is None,
{
    lemma_part_value(lead, tag, v);
    lemma_other_tag(trim(lead + tag + seq![' '] + v), tag, other);
}

proof fn lemma_tagged_append(a: Seq<Seq<char>>, b: Seq<Seq<char>>, tag: Seq<char>)
    ensures
        tagged(a + b, tag) == match tagged(b, tag) {
            Some(v) => Some(v),
            None => tagged(a, tag),
        },
    decreases b.len(),
{
    if b.len() == 0 {
        assert(a + b =~= a);
    } else {
        assert((a + b).drop_last() =~= a + b.drop_last());
        assert((a + b).last() == b.last());
        lemma_tagged_append(a, b.drop_last(), tag);
    }
}

proof fn lemma_sized_append(a: Seq<Seq<char>>, b: Seq<Seq<char>>)
    requires
        forall|i: int| 0 <= i < b.len() ==> tag_value(#[trigger] b[i], "Size:"@) is None,
    ensures
        sized(a + b) == sized(a),
    decreases b.len(),
{
    if b.len() == 0 {
        assert(a + b =~= a);
    } else {
        assert((a + b).drop_last() =~= a + b.drop_last());
        assert((a + b).last() == b.last());
        assert(tag_value(b[b.len() - 1], "Size:"@) is None);
        assert forall|i: int| 0 <= i < b.drop_last().len() implies tag_value(
            #[trigger] b.drop_last()[i],
            "Size:"@,
        ) is None by {
            assert(b.drop_last()[i] == b[i]);
        }
        lemma_sized_append(a, b.drop_last());
    }
}

/// The tags of the settings parts.
pub open spec fn is_setting_tag(t: Seq<char>) -> bool {
    ||| t == "Steps:"@
    ||| t == "CFG scale:"@
    ||| t == "Seed:"@
    ||| t == "Size:"@
    ||| t == "Model:"@
    ||| t == "Sampler:"@
    ||| t == "Scheduler:"@
}

proof fn lemma_setting_tags(a: Seq<char>, b: Seq<char>)
    requires
        is_setting_tag(a),
        is_setting_tag(b),
    ensures
        tag_shape(a),
        a != b ==> (a[0] != b[0] || a[1] != b[1]),
{
    reveal_strlit("Steps:");
    reveal_strlit("CFG scale:");
    reveal_strlit("Seed:");
    reveal_strlit("Size:");
    reveal_strlit("Model:");
    reveal_strlit("Sampler:");
    reveal_strlit("Scheduler:");
}

/// The settings tags differ from one another.
proof fn lemma_tags_distinct()
    ensures
        "Seed:"@ != "Size:"@,
        "Steps:"@ != "Model:"@,
        "Steps:"@ != "Seed:"@,
        "Sampler:"@ != "Scheduler:"@,
        "CFG scale:"@ != "Scheduler:"@,
{
    reveal_strlit("Steps:");
    reveal_strlit("CFG scale:");
    reveal_strlit("Seed:");
    reveal_strlit("Size:");
    reveal_strlit("Model:");
    reveal_strlit("Sampler:");
    reveal_strlit("Scheduler:");
    assert("Seed:"@[1] != "Size:"@[1]);
    assert("Steps:"@[0] != "Model:"@[0]);
    assert("Steps:"@[1] != "Seed:"@[1]);
    assert("Sampler:"@[1] != "Scheduler:"@[1]);
    assert("CFG scale:"@[0] != "Scheduler:"@[0]);
}

/// The value a part gives under each settings tag.
proof fn lemma_part_tags(lead: Seq<char>, tag: Seq<char>, v: Seq<char>)
    requires
        lead == Seq::<char>::empty() || lead == seq![' '],
        is_setting_tag(tag),
        trim(v) == v,
    ensures
        forall|other: Seq<char>|
            is_setting_tag(other) ==> #[trigger] tag_value(lead + tag + seq![' '] + v, other) == if other
                == tag {
                Some(v)
            } else {
                None
            },
{
    assert forall|other: Seq<char>| is_setting_tag(other) implies #[trigger] tag_value(
        lead + tag + seq![' '] + v,
        other,
    ) == if other == tag {
        Some(v)
    } else {
        None
    } by {
        lemma_setting_tags(tag, other);
        lemma_setting_tags(other, tag);
        if other == tag {
            lemma_part_value(lead, tag, v);
        } else {
            lemma_part_other(lead, tag, v, other);
        }
    }
}

proof fn lemma_tagged_push(a: Seq<Seq<char>>, x: Seq<char>, tag: Seq<char>)
    ensures
        tagged(a.push(x), tag) == match tag_value(x, tag) {
            Some(v) => Some(v),
            None => tagged(a, tag),
        },
{
    assert(a.push(x).drop_last() =~= a);
}

proof fn lemma_sized_push(a: Seq<Seq<char>>, x: Seq<char>)
    ensures
        sized(a.push(x)) == match tag_value(x, "Size:"@) {
            Some(v) => match split_once(v, 'x') {
                Some(wh) => Some(wh),
                None => sized(a),
            },
            None => sized(a),
        },
{
    assert(a.push(x).drop_last() =~= a);
}

/// Every part of the settings line lacks `c` where the settings do.
proof fn lemma_parts_lack(m: ImageMetadata, c: char)
    requires
        c == ',' || c == '\n',
        plain_value(m.cfg_scale@),
        plain_value(m.model@),
        m.sampler matches Some(sv) ==> plain_value(sv@),
        m.scheduler matches Some(tv) ==> plain_value(tv@),
    ensures
        forall|i: int| 0 <= i < settings_parts(m).len() ==> lacks(#[trigger] settings_parts(m)[i], c),
{
    reveal_strlit("Steps: ");
    reveal_strlit(" CFG scale: ");
    reveal_strlit(" Seed: ");
    reveal_strlit(" Size: ");
    reveal_strlit("x");
    reveal_strlit(" Model: ");
    reveal_strlit(" Sampler: ");
    reveal_strlit(" Scheduler: ");
    lemma_decimal_plain(m.steps as nat);
    lemma_decimal_plain(m.width as nat);
    lemma_decimal_plain(m.height as nat);
    lemma_signed_plain(m.seed as int);
    lemma_lacks_concat("Steps: "@, decimal(m.steps as nat), c);
    lemma_lacks_concat(" CFG scale: "@, m.cfg_scale@, c);
    lemma_lacks_concat(" Seed: "@, signed_decimal(m.seed as int), c);
    lemma_lacks_concat(" Size: "@, decimal(m.width as nat), c);
    lemma_lacks_concat(" Size: "@ + decimal(m.width as nat), "x"@, c);
    lemma_lacks_concat(" Size: "@ + decimal(m.width as nat) + "x"@, decimal(m.height as nat), c);
    lemma_lacks_concat(" Model: "@, m.model@, c);
    match m.sampler {
        Some(sv) => {
            lemma_lacks_concat(" Sampler: "@, sv@, c);
        },
        None => {},
    }
    match m.scheduler {
        Some(tv) => {
            lemma_lacks_concat(" Scheduler: "@, tv@, c);
        },
        None => {},
    }
}

/// What reading the settings line of `m` finds under each tag.
proof fn lemma_settings_read(m: ImageMetadata)
    requires
        plain_value(m.cfg_scale@),
        plain_value(m.model@),
        m.sampler matches Some(sv) ==> plain_value(sv@),
        m.scheduler matches Some(tv) ==> plain_value(tv@),
    ensures
        ({
            let parts = split_on(settings_text(m), ',');
            &&& tagged(parts, "Steps:"@) == Some(decimal(m.steps as nat))
            &&& tagged(parts, "CFG scale:"@) == Some(m.cfg_scale@)
            &&& tagged(parts, "Seed:"@) == Some(signed_decimal(m.seed as int))
            &&& tagged(parts, "Model:"@) == Some(m.model@)
            &&& tagged(parts, "Sampler:"@) == opt_view(m.sampler)
            &&& tagged(parts, "Scheduler:"@) == opt_view(m.scheduler)
            &&& sized(parts) == Some((decimal(m.width as nat), decimal(m.height as nat)))
        }),
{
    reveal_strlit("Steps: ");
    reveal_strlit(" CFG scale: ");
    reveal_strlit(" Seed: ");
    reveal_strlit(" Size: ");
    reveal_strlit("x");
    reveal_strlit(" Model: ");
    reveal_strlit(" Sampler: ");
    reveal_strlit(" Scheduler: ");
    reveal_strlit("Steps:");
    reveal_strlit("CFG scale:");
    reveal_strlit("Seed:");
    reveal_strlit("Size:");
    reveal_strlit("Model:");
    reveal_strlit("Sampler:");
    reveal_strlit("Scheduler:");
    lemma_tags_distinct();
    let sp = seq![' '];
    let none = Seq::<char>::empty();
    let d0 = decimal(m.steps as nat);
    let dw = decimal(m.width as nat);
    let dh = decimal(m.height as nat);
    let sd = signed_decimal(m.seed as int);
    let v3 = dw + "x"@ + dh;
    lemma_decimal_plain(m.steps as nat);
    lemma_decimal_plain(m.width as nat);
    lemma_decimal_plain(m.height as nat);
    lemma_signed_plain(m.seed as int);
    crate::numbers::lemma_decimal_digits(m.width as nat);
    crate::numbers::lemma_decimal_digits(m.height as nat);
    assert(v3[0] == dw[0]);
    assert(v3.last() == dh.last());
    assert(crate::numbers::is_digit(dw[0]));
    assert(crate::numbers::is_digit(dh.last()));
    lemma_trim_plain(v3);
    assert(v3[dw.len() as int] == 'x');
    assert forall|k: int| 0 <= k < dw.len() implies v3[k] != 'x' by {
        assert(v3[k] == dw[k]);
        assert(crate::numbers::is_digit(dw[k]));
    }
    crate::lines::lemma_split_once_at(v3, 'x', dw.len() as int);
    assert(v3.take(dw.len() as int) =~= dw);
    assert(v3.skip(dw.len() as int + 1) =~= dh);
    let p0 = none + "Steps:"@ + sp + d0;
    let p1 = sp + "CFG scale:"@ + sp + m.cfg_scale@;
    let p2 = sp + "Seed:"@ + sp + sd;
    let p3 = sp + "Size:"@ + sp + v3;
    let p4 = sp + "Model:"@ + sp + m.model@;
    assert(p0 =~= "Steps: "@ + d0);
    assert(p1 =~= " CFG scale: "@ + m.cfg_scale@);
    assert(p2 =~= " Seed: "@ + sd);
    assert(p3 =~= " Size: "@ + dw + "x"@ + dh);
    assert(p4 =~= " Model: "@ + m.model@);
    lemma_part_tags(none, "Steps:"@, d0);
    lemma_part_tags(sp, "CFG scale:"@, m.cfg_scale@);
    lemma_part_tags(sp, "Seed:"@, sd);
    lemma_part_tags(sp, "Size:"@, v3);
    lemma_part_tags(sp, "Model:"@, m.model@);
    let base = Seq::<Seq<char>>::empty().push(p0).push(p1).push(p2).push(p3).push(p4);
    let extras = optional_parts(" Sampler: "@, opt_view(m.sampler)) + optional_parts(
        " Scheduler: "@,
        opt_view(m.scheduler),
    );
    assert(settings_parts(m) =~= base + extras);
    lemma_settings_joined(m);
    lemma_parts_lack(m, ',');
    lemma_split_join_inverse(settings_parts(m), ',');
    let parts = split_on(settings_text(m), ',');
    assert(parts == base + extras);
    let e0 = Seq::<Seq<char>>::empty();
    let e1 = e0.push(p0);
    let e2 = e1.push(p1);
    let e3 = e2.push(p2);
    let e4 = e3.push(p3);
    assert forall|t: Seq<char>| is_setting_tag(t) implies #[trigger] tagged(base, t) == if t == "Model:"@ {
        Some(m.model@)
    } else if t == "Size:"@ {
        Some(v3)
    } else if t == "Seed:"@ {
        Some(sd)
    } else if t == "CFG scale:"@ {
        Some(m.cfg_scale@)
    } else if t == "Steps:"@ {
        Some(d0)
    } else {
        None
    } by {
        lemma_tagged_push(e0, p0, t);
        lemma_tagged_push(e1, p1, t);
        lemma_tagged_push(e2, p2, t);
        lemma_tagged_push(e3, p3, t);
        lemma_tagged_push(e4, p4, t);
        assert(tag_value(p0, t) == if t == "Steps:"@ {
            Some(d0)
        } else {
            None
        });
        assert(tag_value(p1, t) == if t == "CFG scale:"@ {
            Some(m.cfg_scale@)
        } else {
            None
        });
        assert(tag_value(p2, t) == if t == "Seed:"@ {
            Some(sd)
        } else {
            None
        });
        assert(tag_value(p3, t) == if t == "Size:"@ {
            Some(v3)
        } else {
            None
        });
        assert(tag_value(p4, t) == if t == "Model:"@ {
            Some(m.model@)
        } else {
            None
        });
    }
    lemma_sized_push(e0, p0);
    lemma_sized_push(e1, p1);
    lemma_sized_push(e2, p2);
    lemma_sized_push(e3, p3);
    lemma_sized_push(e4, p4);
    assert(is_setting_tag("Size:"@));
    assert(tag_value(p0, "Size:"@) is None);
    assert(tag_value(p1, "Size:"@) is None);
    assert(tag_value(p2, "Size:"@) is None);
    assert(tag_value(p3, "Size:"@) == Some(v3));
    assert(tag_value(p4, "Size:"@) is None);
    assert(sized(base) == Some((dw, dh)));
    let ps = optional_parts(" Sampler: "@, opt_view(m.sampler));
    let pt = optional_parts(" Scheduler: "@, opt_view(m.scheduler));
    match m.sampler {
        Some(sv) => {
            lemma_part_tags(sp, "Sampler:"@, sv@);
            assert(sp + "Sampler:"@ + sp + sv@ =~= " Sampler: "@ + sv@);
        },
        None => {},
    }
    match m.scheduler {
        Some(tv) => {
            lemma_part_tags(sp, "Scheduler:"@, tv@);
            assert(sp + "Scheduler:"@ + sp + tv@ =~= " Scheduler: "@ + tv@);
        },
        None => {},
    }
    assert forall|t: Seq<char>| is_setting_tag(t) implies #[trigger] tagged(extras, t) == if t
        == "Scheduler:"@ && m.scheduler is Some {
        opt_view(m.scheduler)
    } else if t == "Sampler:"@ && m.sampler is Some {
        opt_view(m.sampler)
    } else {
        None
    } by {
        let sv_part = " Sampler: "@ + opt_view(m.sampler).unwrap_or(Seq::empty());
        match (m.sampler, m.scheduler) {
            (Some(sv), Some(tv)) => {
                assert(extras =~= e0.push(" Sampler: "@ + sv@).push(" Scheduler: "@ + tv@));
                lemma_tagged_push(e0, " Sampler: "@ + sv@, t);
                lemma_tagged_push(e0.push(" Sampler: "@ + sv@), " Scheduler: "@ + tv@, t);
            },
            (Some(sv), None) => {
                assert(extras =~= e0.push(" Sampler: "@ + sv@));
                lemma_tagged_push(e0, " Sampler: "@ + sv@, t);
            },
            (None, Some(tv)) => {
                assert(extras =~= e0.push(" Scheduler: "@ + tv@));
                lemma_tagged_push(e0, " Scheduler: "@ + tv@, t);
            },
            (None, None) => {
                assert(extras =~= e0);
            },
        }
    }
    assert forall|i: int| 0 <= i < extras.len() implies tag_value(#[trigger] extras[i], "Size:"@) is None by {
        match (m.sampler, m.scheduler) {
            (Some(sv), Some(tv)) => {
                assert(extras[0] == " Sampler: "@ + sv@);
                assert(extras[1] == " Scheduler: "@ + tv@);
            },
            (Some(sv), None) => {
                assert(extras[0] == " Sampler: "@ + sv@);
            },
            (None, Some(tv)) => {
                assert(extras[0] == " Scheduler: "@ + tv@);
            },
            (None, None) => {},
        }
    }
    lemma_sized_append(base, extras);
    assert(is_setting_tag("Steps:"@));
    assert(is_setting_tag("CFG scale:"@));
    assert(is_setting_tag("Seed:"@));
    assert(is_setting_tag("Model:"@));
    assert(is_setting_tag("Sampler:"@));
    assert(is_setting_tag("Scheduler:"@));
    lemma_tagged_append(base, extras, "Steps:"@);
    lemma_tagged_append(base, extras, "CFG scale:"@);
    lemma_tagged_append(base, extras, "Seed:"@);
    lemma_tagged_append(base, extras, "Model:"@);
    lemma_tagged_append(base, extras, "Sampler:"@);
    lemma_tagged_append(base, extras, "Scheduler:"@);
}

proof fn lemma_join_lacks(list: Seq<Seq<char>>, sep: Seq<char>, c: char)
    requires
        lacks(sep, c),
        forall|i: int| 0 <= i < list.len() ==> lacks(#[trigger] list[i], c),
    ensures
        lacks(join(list, sep), c),
    decreases list.len(),
{
    if list.len() == 1 {
        assert(lacks(list[0], c));
    } else if list.len() > 1 {
        let init = list.drop_last();
        assert forall|i: int| 0 <= i < init.len() implies lacks(#[trigger] init[i], c) by {
            assert(init[i] == list[i]);
        }
        lemma_join_lacks(init, sep, c);
        assert(lacks(list[list.len() - 1], c));
        lemma_lacks_concat(join(init, sep), sep, c);
        lemma_lacks_concat(join(init, sep) + sep, list.last(), c);
    } else {
        assert(join(list, sep) =~= Seq::<char>::empty());
    }
}

/// Lines that neither start a negative prompt nor are a settings line are
/// all prompt lines.
proof fn lemma_scan_plain(lines: Seq<Seq<char>>)
    requires
        forall|i: int|
            0 <= i < lines.len() ==> !starts_with(#[trigger] lines[i], "Negative prompt:"@) && !starts_with(
                lines[i],
                "Steps:"@,
            ),
    ensures
        scan_lines(lines) == (lines, None::<Seq<char>>, None::<Seq<char>>),
    decreases lines.len(),
{
    if lines.len() > 0 {
        let init = lines.drop_last();
        assert forall|i: int| 0 <= i < init.len() implies !starts_with(
            #[trigger] init[i],
            "Negative prompt:"@,
        ) && !starts_with(init[i], "Steps:"@) by {
            assert(init[i] == lines[i]);
        }
        lemma_scan_plain(init);
        assert(!starts_with(lines[lines.len() - 1], "Negative prompt:"@));
        assert(init.push(lines.last()) =~= lines);
    } else {
        assert(lines =~= Seq::<Seq<char>>::empty());
    }
}

proof fn lemma_scan_push(lines: Seq<Seq<char>>, line: Seq<char>)
    ensures
        scan_lines(lines.push(line)) == ({
            let (p, n, s) = scan_lines(lines);
            if starts_with(line, "Negative prompt:"@) {
                (p, Some(trim(strip_all_prefix(line, "Negative prompt:"@))), s)
            } else if starts_with(line, "Steps:"@) {
                (p, n, Some(line))
            } else if n is None && s is None {
                (p.push(line), n, s)
            } else {
                (p, n, s)
            }
        }),
{
    assert(lines.push(line).drop_last() =~= lines);
}

/// The lines of the parameters text: the prompt's pieces, the negative
/// prompt line where one is written, and the settings line.
proof fn lemma_parameter_lines(m: ImageMetadata)
    requires
        readable(m),
    ensures
        lines_of(parameters_text(m)) == split_on(m.prompt@, '\n') + match opt_view(m.negative_prompt) {
            Some(n) => seq!["Negative prompt: "@ + n],
            None => Seq::<Seq<char>>::empty(),
        } + seq![settings_text(m)],
{
    reveal_strlit("\nNegative prompt: ");
    reveal_strlit("Negative prompt: ");
    reveal_strlit("\n");
    reveal_strlit("Steps: ");
    let p = m.prompt@;
    let st = settings_text(m);
    lemma_parts_lack(m, '\n');
    lemma_settings_joined(m);
    lemma_join_lacks(settings_parts(m), seq![','], '\n');
    crate::lines::lemma_split_single(st, '\n');
    crate::lines::lemma_split_nonempty(p, '\n');
    assert(st.len() > 0) by {
        assert(st[0] == 'S');
    }
    let negs = match opt_view(m.negative_prompt) {
        Some(n) => seq!["Negative prompt: "@ + n],
        None => Seq::<Seq<char>>::empty(),
    };
    let pieces = split_on(parameters_text(m), '\n');
    match opt_view(m.negative_prompt) {
        Some(n) => {
            let g = "Negative prompt: "@ + n;
            lemma_lacks_concat("Negative prompt: "@, n, '\n');
            crate::lines::lemma_split_single(g, '\n');
            assert(parameters_text(m) =~= p + seq!['\n'] + (g + seq!['\n'] + st));
            crate::lines::lemma_split_append(p, '\n', g + seq!['\n'] + st);
            crate::lines::lemma_split_append(g, '\n', st);
            assert(pieces =~= split_on(p, '\n') + seq![g] + seq![st]);
            lemma_trimmed_ends(n);
            assert(g.last() == n.last());
            assert(crate::text::is_white_space('\r'));
        },
        None => {
            assert(parameters_text(m) =~= p + seq!['\n'] + st);
            crate::lines::lemma_split_append(p, '\n', st);
            assert(pieces =~= split_on(p, '\n') + seq![st]);
        },
    }
    let k = pieces.len() - 1;
    assert(pieces[k] == st);
    assert(pieces.take(k) =~= split_on(p, '\n') + negs);
    assert(pieces.take(k).map_values(|x: Seq<char>| strip_cr(x)) =~= split_on(p, '\n') + negs);
}

/// Writing the parameters and reading them back gives them again, where
/// each part can be read back as written (see `readable`): the settings
/// line is found, and every field read equals the one written.
pub proof fn lemma_parameters_roundtrip(m: ImageMetadata)
    requires
        readable(m),
    ensures
        scan_lines(lines_of(parameters_text(m))).2 == Some(settings_text(m)),
        read_from(m, parameters_text(m), settings_text(m)),
{
    reveal_strlit("Negative prompt:");
    reveal_strlit("Negative prompt: ");
    reveal_strlit("Steps:");
    reveal_strlit("Steps: ");
    reveal_strlit("\n");
    let p = m.prompt@;
    let st = settings_text(m);
    lemma_parameter_lines(m);
    let prompt_pieces = split_on(p, '\n');
    lemma_scan_plain(prompt_pieces);
    assert(st[0] == 'S');
    assert(st.take(6) =~= "Steps:"@) by {
        assert(st.take(7) =~= "Steps: "@);
    }
    assert(!starts_with(st, "Negative prompt:"@)) by {
        if starts_with(st, "Negative prompt:"@) {
            assert(st.take(16)[0] == 'N');
        }
    }
    match opt_view(m.negative_prompt) {
        Some(n) => {
            let g = "Negative prompt: "@ + n;
            lemma_scan_push(prompt_pieces, g);
            assert(g.take(16) =~= "Negative prompt:"@);
            let rest = g.skip(16);
            assert(rest =~= seq![' '] + n);
            assert(!starts_with(rest, "Negative prompt:"@)) by {
                if starts_with(rest, "Negative prompt:"@) {
                    assert(rest.take(16)[0] == rest[0]);
                }
            }
            assert(strip_all_prefix(rest, "Negative prompt:"@) == rest);
            assert("Negative prompt:"@.len() == 16);
            assert(starts_with(g, "Negative prompt:"@));
            assert(strip_all_prefix(g, "Negative prompt:"@) == strip_all_prefix(rest, "Negative prompt:"@));
            lemma_trim_lead_space(n);
            assert(prompt_pieces + seq![g] + seq![st] =~= prompt_pieces.push(g).push(st));
            lemma_scan_push(prompt_pieces.push(g), st);
        },
        None => {
            assert(prompt_pieces + Seq::<Seq<char>>::empty() + seq![st] =~= prompt_pieces.push(st));
            lemma_scan_push(prompt_pieces, st);
        },
    }
    crate::lines::lemma_split_join(p, '\n');
    assert("\n"@ =~= seq!['\n']);
    lemma_settings_read(m);
    crate::numbers::lemma_parse_u32_decimal(m.steps);
    crate::numbers::lemma_parse_u32_decimal(m.width);
    crate::numbers::lemma_parse_u32_decimal(m.height);
    crate::numbers::lemma_parse_i64_decimal(m.seed);
}

} // verus!

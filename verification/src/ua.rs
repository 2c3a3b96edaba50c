//! User-agent classification: bot detection, device class, and the mapping
//! from the families reported by `uaparser` to the fields stored per event.
use vstd::prelude::*;
use crate::text::{ascii_lower, ascii_lowercase, chars_of, contains, contains_seq, owned, str_is};
use uaparser::Parser;
use uaparser::UserAgentParser;

verus! {

#[verifier::external_type_specification]
#[verifier::external_body]
pub struct ExUserAgentParser(UserAgentParser);

/// What the collector stores about a user agent.
pub struct ParsedUa {
    pub platform: Option<String>,
    pub browser: Option<String>,
    /// `Mobile`, `Tablet` or `Desktop`; absent for bots.
    pub device: Option<String>,
    pub is_bot: bool,
    pub bot_name: Option<String>,
}

pub struct ParsedUaView {
    pub platform: Option<Seq<char>>,
    pub browser: Option<Seq<char>>,
    pub device: Option<Seq<char>>,
    pub is_bot: bool,
    pub bot_name: Option<Seq<char>>,
}

pub open spec fn opt_view(o: Option<String>) -> Option<Seq<char>> {
    match o {
        Some(s) => Some(s@),
        None => None,
    }
}

impl View for ParsedUa {
    type V = ParsedUaView;

    open spec fn view(&self) -> ParsedUaView {
        ParsedUaView {
            platform: opt_view(self.platform),
            browser: opt_view(self.browser),
            device: opt_view(self.device),
            is_bot: self.is_bot,
            bot_name: opt_view(self.bot_name),
        }
    }
}

/// Families that `uaparser` reports for one user-agent string.
pub struct UaFamilies {
    pub device: String,
    pub os: String,
    pub user_agent: String,
}

// ---------------------------------------------------------------------------
// Substring heuristics
// ---------------------------------------------------------------------------

/// Lower-case markers whose presence flags a user agent as a bot.
pub open spec fn bot_needles() -> Seq<Seq<char>> {
    seq![
        "bot"@, "crawl"@, "spider"@, "slurp"@, "facebookexternalhit"@, "ahrefs"@, "semrush"@,
        "petalbot"@, "yandex"@, "bingpreview"@, "duckduckgo"@, "discordbot"@, "whatsapp"@,
        "telegrambot"@, "applebot"@, "linkedinbot"@, "embedly"@, "headlesschrome"@,
        "phantomjs"@, "lighthouse"@, "pingdom"@, "uptimerobot"@, "monitor"@,
    ]
}

/// The lower-cased user agent contains one of the bot markers.
pub open spec fn is_bot_ua(ua: Seq<char>) -> bool {
    exists|i: int| 0 <= i < bot_needles().len() && #[trigger] contains_seq(ascii_lower(ua), bot_needles()[i])
}

/// A user agent is a bot's exactly when its ASCII-lower-cased text contains
/// one of these markers: bot, crawl, spider, slurp, facebookexternalhit,
/// ahrefs, semrush, petalbot, yandex, bingpreview, duckduckgo, discordbot,
/// whatsapp, telegrambot, applebot, linkedinbot, embedly, headlesschrome,
/// phantomjs, lighthouse, pingdom, uptimerobot, monitor.
pub proof fn lemma_bot_markers(ua: Seq<char>)
    ensures
        contains_seq(ascii_lower(ua), "bot"@) ==> is_bot_ua(ua),
        contains_seq(ascii_lower(ua), "crawl"@) ==> is_bot_ua(ua),
        contains_seq(ascii_lower(ua), "spider"@) ==> is_bot_ua(ua),
        contains_seq(ascii_lower(ua), "slurp"@) ==> is_bot_ua(ua),
        contains_seq(ascii_lower(ua), "facebookexternalhit"@) ==> is_bot_ua(ua),
        contains_seq(ascii_lower(ua), "ahrefs"@) ==> is_bot_ua(ua),
        contains_seq(ascii_lower(ua), "semrush"@) ==> is_bot_ua(ua),
        contains_seq(ascii_lower(ua), "petalbot"@) ==> is_bot_ua(ua),
        contains_seq(ascii_lower(ua), "yandex"@) ==> is_bot_ua(ua),
        contains_seq(ascii_lower(ua), "bingpreview"@) ==> is_bot_ua(ua),
        contains_seq(ascii_lower(ua), "duckduckgo"@) ==> is_bot_ua(ua),
        contains_seq(ascii_lower(ua), "discordbot"@) ==> is_bot_ua(ua),
        contains_seq(ascii_lower(ua), "whatsapp"@) ==> is_bot_ua(ua),
        contains_seq(ascii_lower(ua), "telegrambot"@) ==> is_bot_ua(ua),
        contains_seq(ascii_lower(ua), "applebot"@) ==> is_bot_ua(ua),
        contains_seq(ascii_lower(ua), "linkedinbot"@) ==> is_bot_ua(ua),
        contains_seq(ascii_lower(ua), "embedly"@) ==> is_bot_ua(ua),
        contains_seq(ascii_lower(ua), "headlesschrome"@) ==> is_bot_ua(ua),
        contains_seq(ascii_lower(ua), "phantomjs"@) ==> is_bot_ua(ua),
        contains_seq(ascii_lower(ua), "lighthouse"@) ==> is_bot_ua(ua),
        contains_seq(ascii_lower(ua), "pingdom"@) ==> is_bot_ua(ua),
        contains_seq(ascii_lower(ua), "uptimerobot"@) ==> is_bot_ua(ua),
        contains_seq(ascii_lower(ua), "monitor"@) ==> is_bot_ua(ua),
        is_bot_ua(ua) ==> {
            ||| contains_seq(ascii_lower(ua), "bot"@)
            ||| contains_seq(ascii_lower(ua), "crawl"@)
            ||| contains_seq(ascii_lower(ua), "spider"@)
            ||| contains_seq(ascii_lower(ua), "slurp"@)
            ||| contains_seq(ascii_lower(ua), "facebookexternalhit"@)
            ||| contains_seq(ascii_lower(ua), "ahrefs"@)
            ||| contains_seq(ascii_lower(ua), "semrush"@)
            ||| contains_seq(ascii_lower(ua), "petalbot"@)
            ||| contains_seq(ascii_lower(ua), "yandex"@)
            ||| contains_seq(ascii_lower(ua), "bingpreview"@)
            ||| contains_seq(ascii_lower(ua), "duckduckgo"@)
            ||| contains_seq(ascii_lower(ua), "discordbot"@)
            ||| contains_seq(ascii_lower(ua), "whatsapp"@)
            ||| contains_seq(ascii_lower(ua), "telegrambot"@)
            ||| contains_seq(ascii_lower(ua), "applebot"@)
            ||| contains_seq(ascii_lower(ua), "linkedinbot"@)
            ||| contains_seq(ascii_lower(ua), "embedly"@)
            ||| contains_seq(ascii_lower(ua), "headlesschrome"@)
            ||| contains_seq(ascii_lower(ua), "phantomjs"@)
            ||| contains_seq(ascii_lower(ua), "lighthouse"@)
            ||| contains_seq(ascii_lower(ua), "pingdom"@)
            ||| contains_seq(ascii_lower(ua), "uptimerobot"@)
            ||| contains_seq(ascii_lower(ua), "monitor"@)
        },
{
    let l = ascii_lower(ua);
    let n = bot_needles();
    assert(n[0] == "bot"@);
    assert(n[1] == "crawl"@);
    assert(n[2] == "spider"@);
    assert(n[3] == "slurp"@);
    assert(n[4] == "facebookexternalhit"@);
    assert(n[5] == "ahrefs"@);
    assert(n[6] == "semrush"@);
    assert(n[7] == "petalbot"@);
    assert(n[8] == "yandex"@);
    assert(n[9] == "bingpreview"@);
    assert(n[10] == "duckduckgo"@);
    assert(n[11] == "discordbot"@);
    assert(n[12] == "whatsapp"@);
    assert(n[13] == "telegrambot"@);
    assert(n[14] == "applebot"@);
    assert(n[15] == "linkedinbot"@);
    assert(n[16] == "embedly"@);
    assert(n[17] == "headlesschrome"@);
    assert(n[18] == "phantomjs"@);
    assert(n[19] == "lighthouse"@);
    assert(n[20] == "pingdom"@);
    assert(n[21] == "uptimerobot"@);
    assert(n[22] == "monitor"@);
    if contains_seq(l, "bot"@) {
        assert(contains_seq(l, n[0]));
    }
    if contains_seq(l, "crawl"@) {
        assert(contains_seq(l, n[1]));
    }
    if contains_seq(l, "spider"@) {
        assert(contains_seq(l, n[2]));
    }
    if contains_seq(l, "slurp"@) {
        assert(contains_seq(l, n[3]));
    }
    if contains_seq(l, "facebookexternalhit"@) {
        assert(contains_seq(l, n[4]));
    }
    if contains_seq(l, "ahrefs"@) {
        assert(contains_seq(l, n[5]));
    }
    if contains_seq(l, "semrush"@) {
        assert(contains_seq(l, n[6]));
    }
    if contains_seq(l, "petalbot"@) {
        assert(contains_seq(l, n[7]));
    }
    if contains_seq(l, "yandex"@) {
        assert(contains_seq(l, n[8]));
    }
    if contains_seq(l, "bingpreview"@) {
        assert(contains_seq(l, n[9]));
    }
    if contains_seq(l, "duckduckgo"@) {
        assert(contains_seq(l, n[10]));
    }
    if contains_seq(l, "discordbot"@) {
        assert(contains_seq(l, n[11]));
    }
    if contains_seq(l, "whatsapp"@) {
        assert(contains_seq(l, n[12]));
    }
    if contains_seq(l, "telegrambot"@) {
        assert(contains_seq(l, n[13]));
    }
    if contains_seq(l, "applebot"@) {
        assert(contains_seq(l, n[14]));
    }
    if contains_seq(l, "linkedinbot"@) {
        assert(contains_seq(l, n[15]));
    }
    if contains_seq(l, "embedly"@) {
        assert(contains_seq(l, n[16]));
    }
    if contains_seq(l, "headlesschrome"@) {
        assert(contains_seq(l, n[17]));
    }
    if contains_seq(l, "phantomjs"@) {
        assert(contains_seq(l, n[18]));
    }
    if contains_seq(l, "lighthouse"@) {
        assert(contains_seq(l, n[19]));
    }
    if contains_seq(l, "pingdom"@) {
        assert(contains_seq(l, n[20]));
    }
    if contains_seq(l, "uptimerobot"@) {
        assert(contains_seq(l, n[21]));
    }
    if contains_seq(l, "monitor"@) {
        assert(contains_seq(l, n[22]));
    }
    if is_bot_ua(ua) {
        let i = choose|i: int| 0 <= i < n.len() && #[trigger] contains_seq(l, n[i]);
        assert(0 <= i < 23);
    }
}

fn bot_needles_exec() -> (v: Vec<&'static str>)
    ensures
        v@.len() == bot_needles().len(),
        forall|i: int| 0 <= i < v@.len() ==> (#[trigger] v@[i])@ == bot_needles()[i],
{
    let mut v: Vec<&'static str> = Vec::new();
    v.push("bot");
    v.push("crawl");
    v.push("spider");
    v.push("slurp");
    v.push("facebookexternalhit");
    v.push("ahrefs");
    v.push("semrush");
    v.push("petalbot");
    v.push("yandex");
    v.push("bingpreview");
    v.push("duckduckgo");
    v.push("discordbot");
    v.push("whatsapp");
    v.push("telegrambot");
    v.push("applebot");
    v.push("linkedinbot");
    v.push("embedly");
    v.push("headlesschrome");
    v.push("phantomjs");
    v.push("lighthouse");
    v.push("pingdom");
    v.push("uptimerobot");
    v.push("monitor");
    v
}

/// Whether a user agent looks like a bot by substring matching on its
/// ASCII-lower-cased text.
pub fn classify_bot_by_ua(ua: &str) -> (b: bool)
    ensures
        b == is_bot_ua(ua@),
{
    let lower = ascii_lowercase(chars_of(ua).as_slice());
    let needles = bot_needles_exec();
    let mut i: usize = 0;
    while i < needles.len()
        invariant
            lower@ == ascii_lower(ua@),
            needles@.len() == bot_needles().len(),
            forall|k: int| 0 <= k < needles@.len() ==> (#[trigger] needles@[k])@ == bot_needles()[k],
            i <= needles@.len(),
            forall|k: int| 0 <= k < i ==> !#[trigger] contains_seq(ascii_lower(ua@), bot_needles()[k]),
        decreases needles@.len() - i,
    {
        let n = chars_of(needles[i]);
        if contains(lower.as_slice(), n.as_slice()) {
            assert(contains_seq(ascii_lower(ua@), bot_needles()[i as int]));
            return true;
        }
        i = i + 1;
    }
    false
}

pub open spec fn is_tablet(ua: Seq<char>, family: Seq<char>) -> bool {
    ||| family == "iPad"@
    ||| family == "Tablet"@
    ||| contains_seq(ascii_lower(ua), "tablet"@)
    ||| contains_seq(ascii_lower(ua), "ipad"@)
}

pub open spec fn is_mobile(ua: Seq<char>, family: Seq<char>) -> bool {
    ||| family == "iPhone"@
    ||| family == "iPod"@
    ||| family == "Generic Smartphone"@
    ||| contains_seq(ascii_lower(ua), "mobile"@)
    ||| contains_seq(ascii_lower(ua), "iphone"@)
    ||| contains_seq(ascii_lower(ua), "android"@)
}

/// Device class from the user agent and the device family: `Tablet` wins
/// over `Mobile`, which wins over `Desktop`.
pub open spec fn device_class(ua: Seq<char>, family: Seq<char>) -> Seq<char> {
    if is_tablet(ua, family) {
        "Tablet"@
    } else if is_mobile(ua, family) {
        "Mobile"@
    } else {
        "Desktop"@
    }
}

fn has(lower: &[char], needle: &str) -> (b: bool)
    ensures
        b == contains_seq(lower@, needle@),
{
    let n = chars_of(needle);
    contains(lower, n.as_slice())
}

/// The device class of a user agent given the device family that
/// `uaparser` reported (empty when no parser is loaded).
pub fn classify_device(ua: &str, family: &str) -> (r: &'static str)
    ensures
        r@ == device_class(ua@, family@),
{
    let lower = ascii_lowercase(chars_of(ua).as_slice());
    let tablet = str_is(family, "iPad") || str_is(family, "Tablet") || has(lower.as_slice(), "tablet")
        || has(lower.as_slice(), "ipad");
    if tablet {
        return "Tablet";
    }
    let mobile = str_is(family, "iPhone") || str_is(family, "iPod") || str_is(family, "Generic Smartphone")
        || has(lower.as_slice(), "mobile") || has(lower.as_slice(), "iphone") || has(
        lower.as_slice(),
        "android",
    );
    if mobile {
        "Mobile"
    } else {
        "Desktop"
    }
}

// ---------------------------------------------------------------------------
// From parser families to stored fields
// ---------------------------------------------------------------------------

pub open spec fn is_spider_family(f: Seq<char>) -> bool {
    f == "Spider"@ || f == "Spider Desktop"@ || f == "Spider Smartphone"@ || f == "Spider Tablet"@
}

/// A family name, unless it is `Other`.
pub open spec fn known(f: Seq<char>) -> Option<Seq<char>> {
    if f == "Other"@ {
        None
    } else {
        Some(f)
    }
}

/// The stored fields when `uaparser` reported families `fam` for `ua`.
pub open spec fn from_families(ua: Seq<char>, device: Seq<char>, os: Seq<char>, agent: Seq<char>) -> ParsedUaView {
    let is_bot = is_spider_family(device) || is_bot_ua(ua);
    ParsedUaView {
        platform: known(os),
        browser: known(agent),
        device: if is_bot { None } else { Some(device_class(ua, device)) },
        is_bot,
        bot_name: if is_bot { known(agent) } else { None },
    }
}

/// The stored fields when no regexes are loaded: only the substring
/// heuristics run, and a bot is named `Unknown bot`.
pub open spec fn fallback(ua: Seq<char>) -> ParsedUaView {
    let is_bot = is_bot_ua(ua);
    ParsedUaView {
        platform: None,
        browser: None,
        device: if is_bot { None } else { Some(device_class(ua, Seq::empty())) },
        is_bot,
        bot_name: if is_bot { Some("Unknown bot"@) } else { None },
    }
}

fn known_exec(f: &str) -> (r: Option<String>)
    ensures
        opt_view(r) == known(f@),
{
    if str_is(f, "Other") {
        None
    } else {
        Some(owned(f))
    }
}

/// The stored fields for `ua` given the families the parser reported.
pub fn classify_client(ua: &str, fam: &UaFamilies) -> (r: ParsedUa)
    ensures
        r@ == from_families(ua@, fam.device@, fam.os@, fam.user_agent@),
{
    let platform = known_exec(fam.os.as_str());
    let browser = known_exec(fam.user_agent.as_str());
    let d = fam.device.as_str();
    let spider = str_is(d, "Spider") || str_is(d, "Spider Desktop") || str_is(d, "Spider Smartphone")
        || str_is(d, "Spider Tablet");
    let is_bot = spider || classify_bot_by_ua(ua);
    let device = if is_bot {
        None
    } else {
        Some(owned(classify_device(ua, d)))
    };
    let bot_name = if is_bot {
        known_exec(fam.user_agent.as_str())
    } else {
        None
    };
    ParsedUa { platform, browser, device, is_bot, bot_name }
}

/// The stored fields for `ua` when no parser is loaded.
pub fn classify_fallback(ua: &str) -> (r: ParsedUa)
    ensures
        r@ == fallback(ua@),
{
    let is_bot = classify_bot_by_ua(ua);
    let device = if is_bot {
        None
    } else {
        Some(owned(classify_device(ua, "")))
    };
    proof {
        reveal_strlit("");
    }
    assert(""@ =~= Seq::<char>::empty());
    ParsedUa {
        platform: None,
        browser: None,
        device,
        is_bot,
        bot_name: if is_bot {
            Some(owned("Unknown bot"))
        } else {
            None
        },
    }
}

// ---------------------------------------------------------------------------
// The parser itself
// ---------------------------------------------------------------------------

/// Whether `UserAgentParserBuilder::build_from_bytes`, with unicode support
/// switched off, accepts a regexes file.
pub uninterp spec fn regexes_build_ok(yaml: Seq<u8>) -> bool;

/// The device, OS and user-agent family names that a parser built from the
/// regexes file `yaml` (unicode support off) reports for the user agent `ua`.
pub uninterp spec fn ua_families(yaml: Seq<u8>, ua: Seq<char>) -> (Seq<char>, Seq<char>, Seq<char>);

/// A `uaparser` parser together with the bytes of the regexes file it was
/// built from.
pub struct BuiltParser {
    parser: UserAgentParser,
    source: Ghost<Seq<u8>>,
}

impl BuiltParser {
    /// The regexes file the parser was built from.
    pub closed spec fn source(&self) -> Seq<u8> {
        self.source@
    }
}

/// Builds a parser from the bytes of a `regexes.yaml` with
/// `UserAgentParser::builder().with_unicode_support(false).build_from_bytes`,
/// recording the bytes it was built from. Whether the build succeeds is named,
/// not spelled out (YAML decoding and regex compilation).
#[verifier::external_body]
fn build_parser(yaml: &[u8]) -> (r: Option<BuiltParser>)
    ensures
        r is Some <==> regexes_build_ok(yaml@),
        r matches Some(p) ==> p.source() == yaml@,
{
    match UserAgentParser::builder().with_unicode_support(false).build_from_bytes(yaml) {
        Ok(parser) => Some(BuiltParser { parser, source: Ghost(yaml@) }),
        Err(_) => None,
    }
}

/// Runs `uaparser::Parser::parse` and returns the device, OS and user-agent
/// family names, which depend only on the regexes the parser was built from
/// and on the user agent; they are named, not spelled out.
#[verifier::external_body]
fn client_families(p: &BuiltParser, ua: &str) -> (r: UaFamilies)
    ensures
        (r.device@, r.os@, r.user_agent@) == ua_families(p.source(), ua@),
{
    let c = p.parser.parse(ua);
    UaFamilies {
        device: c.device.family.to_string(),
        os: c.os.family.to_string(),
        user_agent: c.user_agent.family.to_string(),
    }
}

/// A user-agent parser: the `uaparser` regexes when they could be loaded,
/// otherwise the substring heuristics alone.
pub struct UaParser {
    parser: Option<BuiltParser>,
}

impl UaParser {
    /// The regexes file in use, if one loaded.
    pub closed spec fn regex_source(&self) -> Option<Seq<u8>> {
        match self.parser {
            Some(p) => Some(p.source()),
            None => None,
        }
    }

    /// Whether regexes are loaded.
    pub open spec fn has_regexes(&self) -> bool {
        self.regex_source() is Some
    }

    /// A parser from the contents of `regexes.yaml`, if the file was there:
    /// it uses the file when the file builds, and the heuristics otherwise.
    pub fn load(regexes: Option<&[u8]>) -> (r: UaParser)
        ensures
            r.regex_source() == (match regexes {
                Some(b) => if regexes_build_ok(b@) { Some(b@) } else { None::<Seq<u8>> },
                None => None::<Seq<u8>>,
            }),
    {
        match regexes {
            Some(b) => UaParser { parser: build_parser(b) },
            None => UaParser { parser: None },
        }
    }

    /// Replaces the regexes when new ones build; keeps the old ones otherwise.
    pub fn reload(&mut self, regexes: Option<&[u8]>)
        ensures
            final(self).regex_source() == (match regexes {
                Some(b) => if regexes_build_ok(b@) { Some(b@) } else { old(self).regex_source() },
                None => old(self).regex_source(),
            }),
    {
        if let Some(b) = regexes {
            let p = build_parser(b);
            if p.is_some() {
                self.parser = p;
            }
        }
    }

    /// Parses a user agent: with regexes, the stored fields follow the
    /// families the regexes give the agent; without, the substring
    /// heuristics decide.
    pub fn parse(&self, ua: &str) -> (r: ParsedUa)
        ensures
            match self.regex_source() {
                None => r@ == fallback(ua@),
                Some(src) => r@ == from_families(
                    ua@,
                    ua_families(src, ua@).0,
                    ua_families(src, ua@).1,
                    ua_families(src, ua@).2,
                ),
            },
    {
        match &self.parser {
            Some(p) => {
                let fam = client_families(p, ua);
                classify_client(ua, &fam)
            },
            None => classify_fallback(ua),
        }
    }
}

} // verus!

use vstd::prelude::*;

use crate::canvas::SampleMode;

verus! {

/// The primitive to render.
#[derive(Clone, Copy, Debug, PartialEq, Eq, Structural)]
pub enum ArgObject {
    Cube,
    UvSphere,
}

/// Which option the next argument is the value of.
#[derive(Clone, Copy, Debug, PartialEq, Eq, Structural)]
pub enum ArgSelector {
    Unset,
    Texture,
    Output,
    Resolution,
    Interpolation,
    LatitudeSteps,
    LongitudeSteps,
}

/// ASCII case folding of one character, as a code point.
pub open spec fn folded(c: char) -> u32 {
    if 65 <= (c as u32) && (c as u32) <= 90 {
        (c as u32 + 32) as u32
    } else {
        c as u32
    }
}

/// Equality of two texts up to ASCII case.
pub open spec fn eq_ignore_case(a: Seq<char>, b: Seq<char>) -> bool {
    a.len() == b.len() && forall|i: int| 0 <= i < a.len() ==> #[trigger] folded(a[i]) == folded(
        b[i],
    )
}

fn fold_char(c: char) -> (r: u32)
    ensures
        r == folded(c),
{
    let v: u32 = c as u32;
    if v >= 65 && v <= 90 {
        v + 32
    } else {
        v
    }
}

/// Compares two texts, ignoring the case of ASCII letters.
pub fn eq_ignore_ascii_case(a: &str, b: &str) -> (r: bool)
    ensures
        r == eq_ignore_case(a@, b@),
{
    let n: usize = a.unicode_len();
    if n != b.unicode_len() {
        return false;
    }
    let mut i: usize = 0;
    while i < n
        invariant
            n == a@.len(),
            n == b@.len(),
            i <= n,
            forall|j: int| 0 <= j < i ==> #[trigger] folded(a@[j]) == folded(b@[j]),
        decreases n - i,
    {
        if fold_char(a.get_char(i)) != fold_char(b.get_char(i)) {
            return false;
        }
        i = i + 1;
    }
    true
}

pub open spec fn is_digit(c: char) -> bool {
    48 <= (c as u32) && (c as u32) <= 57
}

pub open spec fn all_digits(s: Seq<char>) -> bool {
    forall|i: int| 0 <= i < s.len() ==> #[trigger] is_digit(s[i])
}

/// The number that a text of decimal digits writes.
pub open spec fn digits_value(s: Seq<char>) -> nat
    decreases s.len(),
{
    if s.len() == 0 {
        0
    } else {
        digits_value(s.drop_last()) * 10 + ((s.last() as u32) - 48) as nat
    }
}

/// The digits of a number written with an optional leading `+`.
pub open spec fn unsigned_digits(s: Seq<char>) -> Seq<char> {
    if s.len() > 0 && s[0] == '+' {
        s.subrange(1, s.len() as int)
    } else {
        s
    }
}

/// The 16-bit unsigned number that `s` writes in decimal: an optional `+`,
/// then one digit or more, of value at most 65535.
pub open spec fn parse_u16_spec(s: Seq<char>) -> Option<u16> {
    let d = unsigned_digits(s);
    if d.len() > 0 && all_digits(d) && digits_value(d) <= 65535 {
        Some(digits_value(d) as u16)
    } else {
        None
    }
}

/// Reads a 16-bit unsigned decimal number.
pub fn parse_u16(s: &str) -> (r: Option<u16>)
    ensures
        r == parse_u16_spec(s@),
{
    let n: usize = s.unicode_len();
    let mut start: usize = 0;
    if n > 0 && s.get_char(0) == '+' {
        start = 1;
    }
    let ghost d = unsigned_digits(s@);
    if start >= n {
        return None;
    }
    let mut value: u32 = 0;
    let mut i: usize = start;
    while i < n
        invariant
            n == s@.len(),
            start <= i <= n,
            d == s@.subrange(start as int, n as int),
            d == unsigned_digits(s@),
            forall|j: int| 0 <= j < i - start ==> #[trigger] is_digit(d[j]),
            value as nat == if digits_value(d.subrange(0, i - start)) <= 65536 {
                digits_value(d.subrange(0, i - start))
            } else {
                65536
            },
        decreases n - i,
    {
        let c: char = s.get_char(i);
        let v: u32 = c as u32;
        if v < 48 || v > 57 {
            proof {
                assert(d[i - start] == c);
                assert(!is_digit(d[i - start]));
            }
            return None;
        }
        let ghost prefix = d.subrange(0, i - start);
        let ghost next = d.subrange(0, i - start + 1);
        proof {
            assert(next.drop_last() == prefix);
            assert(next.last() == c);
        }
        value = value * 10 + (v - 48);
        if value > 65536 {
            value = 65536;
        }
        i = i + 1;
    }
    proof {
        assert(d.subrange(0, n - start) == d);
    }
    if value > 65535 {
        None
    } else {
        Some(value as u16)
    }
}

/// What a command line has set so far.
pub ghost struct ArgsModel {
    pub object: Option<ArgObject>,
    pub texture: Option<Seq<char>>,
    pub output: Option<Seq<char>>,
    pub resolution: u16,
    pub interpolation: SampleMode,
    pub lat: u16,
    pub lng: u16,
    pub selector: ArgSelector,
}

/// The settings of a fresh command line.
pub open spec fn default_args() -> ArgsModel {
    ArgsModel {
        object: None,
        texture: None,
        output: None,
        resolution: 256,
        interpolation: SampleMode::BiLinear,
        lat: 128,
        lng: 64,
        selector: ArgSelector::Unset,
    }
}

/// A rejected argument: which setting, and what is wrong with it.
pub ghost struct ArgErrorModel {
    pub name: Seq<char>,
    pub issue: Seq<char>,
}

pub open spec fn arg_error(name: Seq<char>, issue: Seq<char>) -> ArgErrorModel {
    ArgErrorModel { name, issue }
}

/// The option that a selector argument names, if any.
pub open spec fn selector_of(s: Seq<char>) -> Option<ArgSelector> {
    if eq_ignore_case(s, "--texture"@) || eq_ignore_case(s, "-t"@) {
        Some(ArgSelector::Texture)
    } else if eq_ignore_case(s, "--out"@) || eq_ignore_case(s, "-o"@) {
        Some(ArgSelector::Output)
    } else if eq_ignore_case(s, "--resolution"@) || eq_ignore_case(s, "-r"@) {
        Some(ArgSelector::Resolution)
    } else if eq_ignore_case(s, "--interpolation"@) || eq_ignore_case(s, "-i"@) {
        Some(ArgSelector::Interpolation)
    } else if eq_ignore_case(s, "--lat"@) {
        Some(ArgSelector::LatitudeSteps)
    } else if eq_ignore_case(s, "--lng"@) {
        Some(ArgSelector::LongitudeSteps)
    } else {
        None
    }
}

/// The sample mode that an interpolation value names, if any.
pub open spec fn sample_mode_of(s: Seq<char>) -> Option<SampleMode> {
    if eq_ignore_case(s, "nearest"@) {
        Some(SampleMode::NearestNeighbor)
    } else if eq_ignore_case(s, "bilinear"@) {
        Some(SampleMode::BiLinear)
    } else if eq_ignore_case(s, "bicubic"@) {
        Some(SampleMode::BiCubic)
    } else {
        None
    }
}

/// The object that the first argument names, if any.
pub open spec fn object_of(s: Seq<char>) -> Option<ArgObject> {
    if eq_ignore_case(s, "cube"@) {
        Some(ArgObject::Cube)
    } else if eq_ignore_case(s, "uv_sphere"@) || eq_ignore_case(s, "uv"@) {
        Some(ArgObject::UvSphere)
    } else {
        None
    }
}

/// Takes `value` as the value of the pending option.
pub open spec fn digest_value_spec(m: ArgsModel, value: Seq<char>) -> Result<
    ArgsModel,
    ArgErrorModel,
> {
    match m.selector {
        ArgSelector::Texture => Ok(
            ArgsModel { texture: Some(value), selector: ArgSelector::Unset, ..m },
        ),
        ArgSelector::Output => Ok(ArgsModel { output: Some(value), selector: ArgSelector::Unset, ..m }),
        ArgSelector::Resolution => match parse_u16_spec(value) {
            Some(n) => Ok(ArgsModel { resolution: n, selector: ArgSelector::Unset, ..m }),
            None => Err(
                arg_error("resolution"@, "Invalid resolution ("@ + value + ")"@),
            ),
        },
        ArgSelector::Interpolation => match sample_mode_of(value) {
            Some(mode) => Ok(
                ArgsModel { interpolation: mode, selector: ArgSelector::Unset, ..m },
            ),
            None => Err(
                arg_error("interpolation"@, "Unrecognized sample mode ("@ + value + ")"@),
            ),
        },
        ArgSelector::LatitudeSteps => match parse_u16_spec(value) {
            Some(n) => Ok(ArgsModel { lat: n, selector: ArgSelector::Unset, ..m }),
            None => Err(
                arg_error("lat"@, "Invalid latitude step count ("@ + value + ")"@),
            ),
        },
        ArgSelector::LongitudeSteps => match parse_u16_spec(value) {
            Some(n) => Ok(ArgsModel { lng: n, selector: ArgSelector::Unset, ..m }),
            None => Err(
                arg_error("lng"@, "Invalid longitude step count ("@ + value + ")"@),
            ),
        },
        ArgSelector::Unset => Ok(m),
    }
}

/// Digests `args` from position `index` on: position 1 names the object, the
/// others alternate between a selector and its value. Gives the settings
/// reached and the first error met, if any; the arguments after an error
/// are not read.
pub open spec fn digest_spec(m: ArgsModel, args: Seq<Seq<char>>, index: int) -> (
    ArgsModel,
    Option<ArgErrorModel>,
)
    decreases args.len() - index,
{
    if index >= args.len() {
        if m.object is None {
            (m, Some(arg_error("object"@, "Argument is required"@)))
        } else {
            (m, None)
        }
    } else if index == 1 {
        match object_of(args[index]) {
            Some(o) => digest_spec(ArgsModel { object: Some(o), ..m }, args, index + 1),
            None => (m, Some(arg_error("object"@, "Not one of cube, uv_sphere"@))),
        }
    } else if m.selector == ArgSelector::Unset {
        match selector_of(args[index]) {
            Some(sel) => digest_spec(ArgsModel { selector: sel, ..m }, args, index + 1),
            None => (
                m,
                Some(arg_error("selector"@, "Unrecognized selector "@ + args[index])),
            ),
        }
    } else {
        match digest_value_spec(m, args[index]) {
            Ok(next) => digest_spec(next, args, index + 1),
            Err(e) => (m, Some(e)),
        }
    }
}

/// The texts of a list of arguments.
pub open spec fn texts(args: Seq<String>) -> Seq<Seq<char>> {
    args.map_values(|s: String| s@)
}

/// A rejected command-line argument.
pub struct ArgError {
    name: String,
    issue: String,
}

impl View for ArgError {
    type V = ArgErrorModel;

    closed spec fn view(&self) -> ArgErrorModel {
        ArgErrorModel { name: self.name@, issue: self.issue@ }
    }
}

impl ArgError {
    fn from_parts(name: &str, issue: String) -> (r: ArgError)
        ensures
            r@ == arg_error(name@, issue@),
    {
        ArgError { name: String::from_str(name), issue }
    }

    /// The setting that was rejected.
    pub fn name(&self) -> (r: &str)
        ensures
            r@ == self@.name,
    {
        self.name.as_str()
    }

    /// What is wrong with it.
    pub fn issue(&self) -> (r: &str)
        ensures
            r@ == self@.issue,
    {
        self.issue.as_str()
    }

    /// `name: issue`, as one line.
    pub fn describe(&self) -> (r: String)
        ensures
            r@ == self@.name + ": "@ + self@.issue,
    {
        let mut s = self.name.clone();
        s.append(": ");
        s.append(self.issue.as_str());
        s
    }
}

/// Builds `head`, then `value`, then `tail`.
fn framed(head: &str, value: &str, tail: &str) -> (r: String)
    ensures
        r@ == head@ + value@ + tail@,
{
    let mut s = String::from_str(head);
    s.append(value);
    s.append(tail);
    s
}

/// Settings read from the command line.
pub struct Args {
    pub object: Option<ArgObject>,
    pub texture: Option<String>,
    pub output: Option<String>,
    pub resolution: u16,
    pub interpolation: SampleMode,
    pub lat: u16,
    pub lng: u16,
    /// The option whose value the next argument is.
    pub active_selector: ArgSelector,
}

impl View for Args {
    type V = ArgsModel;

    open spec fn view(&self) -> ArgsModel {
        ArgsModel {
            object: self.object,
            texture: match self.texture {
                Some(t) => Some(t@),
                None => None,
            },
            output: match self.output {
                Some(o) => Some(o@),
                None => None,
            },
            resolution: self.resolution,
            interpolation: self.interpolation,
            lat: self.lat,
            lng: self.lng,
            selector: self.active_selector,
        }
    }
}

impl Args {
    pub fn new() -> (r: Args)
        ensures
            r@ == default_args(),
    {
        Args {
            object: None,
            texture: None,
            output: None,
            resolution: 256u16,
            interpolation: SampleMode::BiLinear,
            lat: 128u16,
            lng: 64u16,
            active_selector: ArgSelector::Unset,
        }
    }

    /// Digests `args` from position `index` on (position 0 being the
    /// program's name); see `digest_spec`.
    pub fn digest(&mut self, args: &Vec<String>, index: usize) -> (r: Result<(), ArgError>)
        ensures
            final(self)@ == digest_spec(old(self)@, texts(args@), index as int).0,
            match r {
                Ok(()) => digest_spec(old(self)@, texts(args@), index as int).1 is None,
                Err(e) => digest_spec(old(self)@, texts(args@), index as int).1 == Some(e@),
            },
        decreases args.len() - index,
    {
        if index >= args.len() {
            if self.object.is_none() {
                return Err(ArgError::from_parts("object", String::from_str("Argument is required")));
            }
            return Ok(());
        }
        if index == 1 {
            let ob_str: &String = &args[index];
            if eq_ignore_ascii_case(ob_str.as_str(), "cube") {
                self.object = Some(ArgObject::Cube);
            } else if eq_ignore_ascii_case(ob_str.as_str(), "uv_sphere") || eq_ignore_ascii_case(
                ob_str.as_str(),
                "uv",
            ) {
                self.object = Some(ArgObject::UvSphere);
            } else {
                return Err(
                    ArgError::from_parts("object", String::from_str("Not one of cube, uv_sphere")),
                );
            }
        } else {
            if self.active_selector == ArgSelector::Unset {
                let res = self.digest_selector(&args[index]);
                if res.is_err() {
                    return res;
                }
            } else {
                let res = self.digest_value(&args[index]);
                if res.is_err() {
                    return res;
                }
            }
        }
        self.digest(args, index + 1)
    }

    fn digest_selector(&mut self, selector: &String) -> (r: Result<(), ArgError>)
        requires
            old(self)@.selector == ArgSelector::Unset,
        ensures
            match selector_of(selector@) {
                Some(sel) => r is Ok && final(self)@ == (ArgsModel { selector: sel, ..old(self)@ }),
                None => r matches Err(e) && e@ == arg_error(
                    "selector"@,
                    "Unrecognized selector "@ + selector@,
                ) && final(self)@ == old(self)@,
            },
    {
        let s: &str = selector.as_str();
        if eq_ignore_ascii_case(s, "--texture") || eq_ignore_ascii_case(s, "-t") {
            self.active_selector = ArgSelector::Texture;
        } else if eq_ignore_ascii_case(s, "--out") || eq_ignore_ascii_case(s, "-o") {
            self.active_selector = ArgSelector::Output;
        } else if eq_ignore_ascii_case(s, "--resolution") || eq_ignore_ascii_case(s, "-r") {
            self.active_selector = ArgSelector::Resolution;
        } else if eq_ignore_ascii_case(s, "--interpolation") || eq_ignore_ascii_case(s, "-i") {
            self.active_selector = ArgSelector::Interpolation;
        } else if eq_ignore_ascii_case(s, "--lat") {
            self.active_selector = ArgSelector::LatitudeSteps;
        } else if eq_ignore_ascii_case(s, "--lng") {
            self.active_selector = ArgSelector::LongitudeSteps;
        } else {
            let mut issue = String::from_str("Unrecognized selector ");
            issue.append(s);
            return Err(ArgError::from_parts("selector", issue));
        }
        Ok(())
    }

    fn digest_value(&mut self, value: &String) -> (r: Result<(), ArgError>)
        requires
            old(self)@.selector != ArgSelector::Unset,
        ensures
            match digest_value_spec(old(self)@, value@) {
                Ok(next) => r is Ok && final(self)@ == next,
                Err(e) => r matches Err(err) && err@ == e && final(self)@ == old(self)@,
            },
    {
        let v: &str = value.as_str();
        match self.active_selector {
            ArgSelector::Texture => {
                self.texture = Some(value.clone());
            },
            ArgSelector::Output => {
                self.output = Some(value.clone());
            },
            ArgSelector::Resolution => {
                match parse_u16(v) {
                    Some(n) => {
                        self.resolution = n;
                    },
                    None => {
                        return Err(
                            ArgError::from_parts("resolution", framed("Invalid resolution (", v, ")")),
                        );
                    },
                }
            },
            ArgSelector::Interpolation => {
                if eq_ignore_ascii_case(v, "nearest") {
                    self.interpolation = SampleMode::NearestNeighbor;
                } else if eq_ignore_ascii_case(v, "bilinear") {
                    self.interpolation = SampleMode::BiLinear;
                } else if eq_ignore_ascii_case(v, "bicubic") {
                    self.interpolation = SampleMode::BiCubic;
                } else {
                    return Err(
                        ArgError::from_parts(
                            "interpolation",
                            framed("Unrecognized sample mode (", v, ")"),
                        ),
                    );
                }
            },
            ArgSelector::LatitudeSteps => {
                match parse_u16(v) {
                    Some(n) => {
                        self.lat = n;
                    },
                    None => {
                        return Err(
                            ArgError::from_parts("lat", framed("Invalid latitude step count (", v, ")")),
                        );
                    },
                }
            },
            ArgSelector::LongitudeSteps => {
                match parse_u16(v) {
                    Some(n) => {
                        self.lng = n;
                    },
                    None => {
                        return Err(
                            ArgError::from_parts(
                                "lng",
                                framed("Invalid longitude step count (", v, ")"),
                            ),
                        );
                    },
                }
            },
            ArgSelector::Unset => {
                return Ok(());
            },
        }
        self.active_selector = ArgSelector::Unset;
        Ok(())
    }
}

} // verus!

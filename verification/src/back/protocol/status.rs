//! The status that a receiver reports, and how it is read from the payload of
//! a `RECEIVER_STATUS` message.

use vstd::prelude::*;

use super::document::{as_bool, as_number, as_str, count, is_array, item, json_model, member, JsonDoc};
use super::uuids::{parse_uuid, uuid_parse};
use super::ApplicationId;
use crate::errors::{Error, ErrorKind, ErrorModel};

verus! {

/// A number in decimal: `mantissa` times ten to the power `exponent`, negated
/// where `positive` is false.
pub struct Decimal {
    pub positive: bool,
    pub mantissa: u64,
    pub exponent: i16,
}

/// A mantissa and an exponent of the same number, without the zeros at the
/// end of the mantissa, as far as the exponent can take them up.
pub open spec fn trim(mantissa: u64, exponent: i16) -> (u64, i16)
    decreases mantissa,
{
    if mantissa != 0 && mantissa % 10 == 0 && exponent < i16::MAX {
        trim(mantissa / 10, (exponent + 1) as i16)
    } else {
        (mantissa, exponent)
    }
}

impl Decimal {
    /// The one way in which this number is written as a level: zero as plus
    /// zero times one, and any other number without zeros at the end of its
    /// mantissa.
    pub open spec fn canonical(self) -> Decimal {
        if self.mantissa == 0 {
            Decimal { positive: true, mantissa: 0, exponent: 0 }
        } else {
            Decimal {
                positive: self.positive,
                mantissa: trim(self.mantissa, self.exponent).0,
                exponent: trim(self.mantissa, self.exponent).1,
            }
        }
    }

    /// Whether the number is written in the one way in which a level is.
    pub open spec fn is_canonical(self) -> bool {
        self.canonical() == self
    }

    /// Whether the number lies between 0 and 1: it is zero, or it is positive
    /// and its mantissa times ten to its exponent is at most 1.
    pub open spec fn in_range(self) -> bool {
        self.mantissa == 0 || (self.positive && if self.exponent >= 0 {
            self.mantissa * pow10(self.exponent as nat) <= 1
        } else {
            self.mantissa <= pow10((-self.exponent) as nat)
        })
    }
}

/// Whether two decimals are the same number: both are zero, or they have the
/// same sign and, brought to the lower of their exponents, the same mantissa.
pub open spec fn same_number(a: Decimal, b: Decimal) -> bool {
    if a.mantissa == 0 || b.mantissa == 0 {
        a.mantissa == b.mantissa
    } else {
        let low = if a.exponent <= b.exponent {
            a.exponent
        } else {
            b.exponent
        };
        a.positive == b.positive && a.mantissa * pow10((a.exponent - low) as nat) == b.mantissa
            * pow10((b.exponent - low) as nat)
    }
}

/// Taking the zeros off the end of a mantissa keeps the number, and leaves a
/// mantissa that ends in no zero unless the exponent is at its largest.
pub proof fn lemma_trim_keeps_number(mantissa: u64, exponent: i16)
    requires
        mantissa != 0,
    ensures
        trim(mantissa, exponent).0 != 0,
        trim(mantissa, exponent).1 >= exponent,
        mantissa == trim(mantissa, exponent).0 * pow10(
            (trim(mantissa, exponent).1 - exponent) as nat,
        ),
        trim(mantissa, exponent).0 % 10 != 0 || trim(mantissa, exponent).1 == i16::MAX,
        trim(trim(mantissa, exponent).0, trim(mantissa, exponent).1) == trim(mantissa, exponent),
    decreases mantissa,
{
    if mantissa % 10 == 0 && exponent < i16::MAX {
        let less = mantissa / 10;
        let next = (exponent + 1) as i16;
        lemma_trim_keeps_number(less, next);
        let (short, power) = trim(less, next);
        let steps = (power - next) as nat;
        assert(trim(mantissa, exponent) == (short, power));
        assert((power - exponent) as nat == steps + 1);
        assert(pow10(steps + 1) == 10 * pow10(steps));
        assert(mantissa == short * pow10(steps + 1)) by (nonlinear_arith)
            requires
                mantissa == 10 * less,
                less == short * pow10(steps),
                pow10(steps + 1) == 10 * pow10(steps),
        ;
    } else {
        assert(mantissa * pow10(0) == mantissa) by (nonlinear_arith)
            requires
                pow10(0) == 1,
        ;
    }
}

/// A level that is not zero has a mantissa that ends in no zero, unless its
/// exponent is at its largest.
pub proof fn lemma_canonical_ends_in_no_zero(a: Decimal)
    requires
        a.is_canonical(),
        a.mantissa != 0,
    ensures
        a.mantissa % 10 != 0 || a.exponent == i16::MAX,
{
    if a.mantissa % 10 == 0 && a.exponent < i16::MAX {
        lemma_trim_keeps_number(a.mantissa / 10, (a.exponent + 1) as i16);
    }
}

/// Written as a level is, a decimal is still the same number, and writing it
/// so once more changes nothing.
pub proof fn lemma_canonical_is_the_same_number(a: Decimal)
    ensures
        same_number(a, a.canonical()),
        a.canonical().is_canonical(),
{
    if a.mantissa != 0 {
        lemma_trim_keeps_number(a.mantissa, a.exponent);
        let (short, power) = trim(a.mantissa, a.exponent);
        assert(a.mantissa * pow10(0) == short * pow10((power - a.exponent) as nat))
            by (nonlinear_arith)
            requires
                pow10(0) == 1,
                a.mantissa == short * pow10((power - a.exponent) as nat),
        ;
    }
}

/// A number is written as a level in one way only: two levels that are the
/// same number are equal.
pub proof fn lemma_one_way_to_write_a_level(a: Decimal, b: Decimal)
    requires
        a.is_canonical(),
        b.is_canonical(),
        same_number(a, b),
    ensures
        a == b,
{
    if a.mantissa != 0 && b.mantissa != 0 {
        assert(pow10(0) == 1);
        lemma_canonical_ends_in_no_zero(a);
        lemma_canonical_ends_in_no_zero(b);
        if a.exponent < b.exponent {
            lemma_ends_in_zero(a.mantissa, b.mantissa, (b.exponent - a.exponent) as nat);
        } else if b.exponent < a.exponent {
            lemma_ends_in_zero(b.mantissa, a.mantissa, (a.exponent - b.exponent) as nat);
        } else {
            assert(a.mantissa == b.mantissa) by (nonlinear_arith)
                requires
                    a.mantissa * pow10(0) == b.mantissa * pow10(0),
                    pow10(0) == 1,
            ;
        }
    }
}

/// A mantissa that is another times a power of ten above the first ends in a
/// zero.
proof fn lemma_ends_in_zero(long: u64, short: u64, steps: nat)
    requires
        steps >= 1,
        long * pow10(0) == short * pow10(steps),
    ensures
        long % 10 == 0,
{
    assert(pow10(0) == 1);
    assert(pow10(steps) == 10 * pow10((steps - 1) as nat));
    let rest = short * pow10((steps - 1) as nat);
    assert(long == 10 * rest) by (nonlinear_arith)
        requires
            long * 1 == short * pow10(steps),
            pow10(steps) == 10 * pow10((steps - 1) as nat),
            rest == short * pow10((steps - 1) as nat),
    ;
}

/// The magnitude of volume: a number from 0 to 1, held in decimal.
///
/// A level is always written in one way, so that two levels are equal where
/// they are the same number: `0.85` and `0.850` are one level.
#[derive(Clone, Copy, Debug, PartialEq, Eq, Structural)]
pub struct VolumeLevel {
    positive: bool,
    mantissa: u64,
    exponent: i16,
}

impl View for VolumeLevel {
    type V = Decimal;

    closed spec fn view(&self) -> Decimal {
        Decimal { positive: self.positive, mantissa: self.mantissa, exponent: self.exponent }
    }
}

/// The number that an optional level holds.
pub open spec fn level_model(level: Option<VolumeLevel>) -> Option<Decimal> {
    match level {
        Some(level) => Some(level@),
        None => None,
    }
}

/// The volume status of a Cast receiver.
#[derive(Clone, Debug, PartialEq, Eq)]
pub struct Volume {
    /// The volume control type.
    ///
    /// Possible values:
    /// * `"attenuation"`
    pub control_type: String,
    /// The current volume level.
    pub level: VolumeLevel,
    /// Whether or not the receiver is muted.
    pub muted: bool,
    /// The amount we increase/decrease the volume in one step.
    pub step_interval: VolumeLevel,
}

/// Information about a currently running application.
#[derive(Clone, Debug, PartialEq, Eq)]
pub struct Application {
    /// The identifier of the application.
    pub id: ApplicationId,
    /// The display name.
    pub display_name: String,
    pub is_idle_screen: bool,
    /// A unique identifier for the session: a UUID, as a 128-bit number.
    pub session_id: u128,
    /// The status text.
    pub status_text: String,
}

/// Stores the status of a Cast receiver.
#[derive(Clone, Debug, PartialEq, Eq)]
pub struct Status {
    /// The current volume of the receiver.
    pub volume: Volume,
    /// The currently running applications.
    pub applications: Vec<Application>,
}

/// The mathematical value of a [`Volume`].
pub struct VolumeModel {
    pub control_type: Seq<char>,
    pub level: Decimal,
    pub muted: bool,
    pub step_interval: Decimal,
}

/// The mathematical value of an [`Application`].
pub struct ApplicationModel {
    pub id: Seq<char>,
    pub display_name: Seq<char>,
    pub is_idle_screen: bool,
    pub session_id: u128,
    pub status_text: Seq<char>,
}

/// The mathematical value of a [`Status`].
pub struct StatusModel {
    pub volume: VolumeModel,
    pub applications: Seq<ApplicationModel>,
}

impl View for Volume {
    type V = VolumeModel;

    open spec fn view(&self) -> VolumeModel {
        VolumeModel {
            control_type: self.control_type@,
            level: self.level@,
            muted: self.muted,
            step_interval: self.step_interval@,
        }
    }
}

impl View for Application {
    type V = ApplicationModel;

    open spec fn view(&self) -> ApplicationModel {
        ApplicationModel {
            id: self.id@,
            display_name: self.display_name@,
            is_idle_screen: self.is_idle_screen,
            session_id: self.session_id,
            status_text: self.status_text@,
        }
    }
}

impl View for Status {
    type V = StatusModel;

    open spec fn view(&self) -> StatusModel {
        StatusModel {
            volume: self.volume@,
            applications: models(self.applications@),
        }
    }
}

/// The mathematical values of a list of applications.
pub open spec fn models(applications: Seq<Application>) -> Seq<ApplicationModel> {
    Seq::new(applications.len(), |i: int| applications[i]@)
}

/// The text of a document that is a string.
pub open spec fn text_of(document: JsonDoc) -> Option<Seq<char>> {
    match document {
        JsonDoc::Text(text) => Some(text),
        _ => None,
    }
}

/// The value of a document that is a boolean.
pub open spec fn flag_of(document: JsonDoc) -> Option<bool> {
    match document {
        JsonDoc::Boolean(flag) => Some(flag),
        _ => None,
    }
}

/// The level that a document holds, where it is a number: the number,
/// written as a level is.
pub open spec fn level_of(document: JsonDoc) -> Option<Decimal> {
    match document {
        JsonDoc::Number { positive, mantissa, exponent } => Some(
            (Decimal { positive, mantissa, exponent }).canonical(),
        ),
        _ => None,
    }
}

impl VolumeModel {
    /// The volume that a document describes. Each of the four fields must be
    /// there with its type; anything else is a decoding error.
    pub open spec fn decode(document: JsonDoc) -> Result<VolumeModel, ErrorModel> {
        let control_type = text_of(document.field("controlType"@));
        let level = level_of(document.field("level"@));
        let muted = flag_of(document.field("muted"@));
        let step_interval = level_of(document.field("stepInterval"@));
        if control_type is Some && level is Some && muted is Some && step_interval is Some {
            Ok(
                VolumeModel {
                    control_type: control_type->0,
                    level: level->0,
                    muted: muted->0,
                    step_interval: step_interval->0,
                },
            )
        } else {
            Err(ErrorModel::Protobuf)
        }
    }
}

impl ApplicationModel {
    /// The application that a document describes. A session identifier that
    /// is missing, is no string or is no UUID is a UUID error; after that, any
    /// other field that is missing or has the wrong type is a decoding error.
    pub open spec fn decode(document: JsonDoc) -> Result<ApplicationModel, ErrorModel> {
        let session_text = text_of(document.field("sessionId"@));
        let id = text_of(document.field("appId"@));
        let display_name = text_of(document.field("displayName"@));
        let is_idle_screen = flag_of(document.field("isIdleScreen"@));
        let status_text = text_of(document.field("statusText"@));
        if session_text is None || uuid_parse(session_text->0) is None {
            Err(ErrorModel::UuidParse)
        } else if id is Some && display_name is Some && is_idle_screen is Some && status_text
            is Some {
            Ok(
                ApplicationModel {
                    id: id->0,
                    display_name: display_name->0,
                    is_idle_screen: is_idle_screen->0,
                    session_id: uuid_parse(session_text->0)->0,
                    status_text: status_text->0,
                },
            )
        } else {
            Err(ErrorModel::Protobuf)
        }
    }

    /// The applications that a list of documents describes, in order; the
    /// error of the first document that describes none.
    pub open spec fn decode_all(documents: Seq<JsonDoc>) -> Result<
        Seq<ApplicationModel>,
        ErrorModel,
    >
        decreases documents.len(),
    {
        if documents.len() == 0 {
            Ok(Seq::empty())
        } else {
            match Self::decode_all(documents.drop_last()) {
                Err(error) => Err(error),
                Ok(before) => match Self::decode(documents.last()) {
                    Err(error) => Err(error),
                    Ok(application) => Ok(before.push(application)),
                },
            }
        }
    }
}

impl StatusModel {
    /// The status that a document describes: its volume, which must be there,
    /// and its applications, which are none where the document holds no list
    /// of them. An error in the volume comes before one in an application.
    pub open spec fn decode(document: JsonDoc) -> Result<StatusModel, ErrorModel> {
        match VolumeModel::decode(document.field("volume"@)) {
            Err(error) => Err(error),
            Ok(volume) => match document.field("applications"@) {
                JsonDoc::Array(documents) => match ApplicationModel::decode_all(documents) {
                    Err(error) => Err(error),
                    Ok(applications) => Ok(StatusModel { volume, applications }),
                },
                _ => Ok(StatusModel { volume, applications: Seq::empty() }),
            },
        }
    }
}

/// The level that a JSON value holds, where it is a number.
fn read_level(value: &json::JsonValue) -> (level: Option<VolumeLevel>)
    ensures
        level_model(level) == level_of(json_model(*value)),
{
    match as_number(value) {
        Some((false, (positive, mantissa, exponent))) => Some(
            VolumeLevel::from_parts(positive, mantissa, exponent),
        ),
        _ => None,
    }
}

impl Status {
    /// Reads the status from the payload of a `RECEIVER_STATUS` message.
    pub fn from_json(status: &json::JsonValue) -> (r: Result<Self, Error>)
        ensures
            match r {
                Ok(status_read) => StatusModel::decode(json_model(*status)) == Ok::<
                    StatusModel,
                    ErrorModel,
                >(status_read@),
                Err(error) => StatusModel::decode(json_model(*status)) == Err::<
                    StatusModel,
                    ErrorModel,
                >(error@),
            },
    {
        let application_data = member(status, "applications");
        let volume = match Volume::from_json(member(status, "volume")) {
            Ok(volume) => volume,
            Err(error) => return Err(error),
        };
        let mut applications: Vec<Application> = Vec::new();
        if is_array(application_data) {
            let n = count(application_data);
            let ghost documents = json_model(*application_data)->Array_0;
            let mut i: usize = 0;
            assert(documents.take(0) == Seq::<JsonDoc>::empty());
            assert(models(applications@) == Seq::<ApplicationModel>::empty());
            while i < n
                invariant
                    i <= n,
                    n == documents.len(),
                    json_model(*application_data) == JsonDoc::Array(documents),
                    json_model(*application_data) == json_model(*status).field("applications"@),
                    VolumeModel::decode(json_model(*status).field("volume"@)) == Ok::<
                        VolumeModel,
                        ErrorModel,
                    >(volume@),
                    ApplicationModel::decode_all(documents.take(i as int)) == Ok::<
                        Seq<ApplicationModel>,
                        ErrorModel,
                    >(models(applications@)),
                decreases n - i,
            {
                let ghost before = models(applications@);
                assert(documents.take(i + 1).drop_last() == documents.take(i as int));
                assert(documents.take(i + 1).last() == documents[i as int]);
                match Application::from_json(item(application_data, i)) {
                    Ok(application) => {
                        applications.push(application);
                        assert(models(applications@) == before.push(application@));
                    },
                    Err(error) => {
                        proof {
                            lemma_decode_all_fails(documents, i as int);
                        }
                        return Err(error);
                    },
                }
                i += 1;
            }
            assert(documents.take(n as int) == documents);
        }
        assert(models(applications@).len() == 0 ==> models(applications@) == Seq::<
            ApplicationModel,
        >::empty());
        Ok(Status { volume, applications })
    }
}

/// Once a beginning of a list fails to decode, the whole list fails with the
/// same error.
proof fn lemma_decode_all_fails(documents: Seq<JsonDoc>, i: int)
    requires
        0 <= i < documents.len(),
        ApplicationModel::decode_all(documents.take(i + 1)) is Err,
    ensures
        ApplicationModel::decode_all(documents) == ApplicationModel::decode_all(
            documents.take(i + 1),
        ),
    decreases documents.len() - i,
{
    if i + 1 < documents.len() {
        assert(documents.take(i + 2).drop_last() == documents.take(i + 1));
        lemma_decode_all_fails(documents, i + 1);
    } else {
        assert(documents.take(i + 1) == documents);
    }
}

impl Volume {
    /// Reads the volume from the `volume` member of a status.
    pub fn from_json(volume: &json::JsonValue) -> (r: Result<Self, Error>)
        ensures
            match r {
                Ok(volume_read) => VolumeModel::decode(json_model(*volume)) == Ok::<
                    VolumeModel,
                    ErrorModel,
                >(volume_read@),
                Err(error) => VolumeModel::decode(json_model(*volume)) == Err::<
                    VolumeModel,
                    ErrorModel,
                >(error@),
            },
    {
        let control_type = as_str(member(volume, "controlType"));
        let level = read_level(member(volume, "level"));
        let muted = as_bool(member(volume, "muted"));
        let step_interval = read_level(member(volume, "stepInterval"));
        match (control_type, level, muted, step_interval) {
            (Some(control_type), Some(level), Some(muted), Some(step_interval)) => Ok(
                Volume { control_type: control_type.to_owned(), level, muted, step_interval },
            ),
            _ => Err(Error(ErrorKind::Protobuf)),
        }
    }
}

impl Application {
    /// Reads an application from a member of the `applications` list of a
    /// status.
    pub fn from_json(application: &json::JsonValue) -> (r: Result<Self, Error>)
        ensures
            match r {
                Ok(application_read) => ApplicationModel::decode(json_model(*application))
                    == Ok::<ApplicationModel, ErrorModel>(application_read@),
                Err(error) => ApplicationModel::decode(json_model(*application)) == Err::<
                    ApplicationModel,
                    ErrorModel,
                >(error@),
            },
    {
        let session_id = match as_str(member(application, "sessionId")) {
            Some(session_id_text) => match parse_uuid(session_id_text) {
                Some(session_id) => session_id,
                None => return Err(Error(ErrorKind::UuidParse)),
            },
            None => return Err(Error(ErrorKind::UuidParse)),
        };
        let id = as_str(member(application, "appId"));
        let display_name = as_str(member(application, "displayName"));
        let is_idle_screen = as_bool(member(application, "isIdleScreen"));
        let status_text = as_str(member(application, "statusText"));
        match (id, display_name, is_idle_screen, status_text) {
            (Some(id), Some(display_name), Some(is_idle_screen), Some(status_text)) => Ok(
                Application {
                    id: ApplicationId(id.to_owned()),
                    display_name: display_name.to_owned(),
                    is_idle_screen,
                    session_id,
                    status_text: status_text.to_owned(),
                },
            ),
            _ => Err(Error(ErrorKind::Protobuf)),
        }
    }
}

/// Ten to the power `n`.
pub open spec fn pow10(n: nat) -> nat
    decreases n,
{
    if n == 0 {
        1
    } else {
        10 * pow10((n - 1) as nat)
    }
}

/// A power of ten grows with its exponent.
pub proof fn lemma_pow10_grows(low: nat, high: nat)
    requires
        low <= high,
    ensures
        1 <= pow10(low) <= pow10(high),
    decreases high,
{
    if high > 0 {
        if low < high {
            lemma_pow10_grows(low, (high - 1) as nat);
        } else {
            lemma_pow10_grows((low - 1) as nat, (high - 1) as nat);
        }
    }
}

impl VolumeLevel {
    #[verifier::type_invariant]
    spec fn written_in_one_way(self) -> bool {
        self@.is_canonical()
    }

    /// The level that is the number with the given parts.
    pub fn from_parts(positive: bool, mantissa: u64, exponent: i16) -> (level: Self)
        ensures
            level@ == (Decimal { positive, mantissa, exponent }).canonical(),
            level@.is_canonical(),
    {
        if mantissa == 0 {
            return VolumeLevel { positive: true, mantissa: 0, exponent: 0 };
        }
        let mut short = mantissa;
        let mut power = exponent;
        while short % 10 == 0 && power < i16::MAX
            invariant
                short != 0,
                trim(short, power) == trim(mantissa, exponent),
            decreases short,
        {
            short = short / 10;
            power = power + 1;
        }
        VolumeLevel { positive, mantissa: short, exponent: power }
    }

    /// The parts of the level: its sign, its mantissa and its exponent.
    pub fn as_parts(&self) -> (parts: (bool, u64, i16))
        ensures
            parts == (self@.positive, self@.mantissa, self@.exponent),
            self@.is_canonical(),
    {
        proof {
            use_type_invariant(self);
        }
        (self.positive, self.mantissa, self.exponent)
    }

    /// Whether the level lies between 0 and 1, as a volume does. The library
    /// does not hold the levels that it is given or that it receives to it.
    pub fn is_in_range(&self) -> (yes: bool)
        ensures
            yes == self@.in_range(),
    {
        if self.mantissa == 0 {
            return true;
        }
        if !self.positive {
            return false;
        }
        if self.exponent > 0 {
            proof {
                lemma_pow10_grows(1, self.exponent as nat);
                reveal_with_fuel(pow10, 2);
                assert(self.mantissa * pow10(self.exponent as nat) >= 10) by (nonlinear_arith)
                    requires
                        self.mantissa >= 1,
                        pow10(self.exponent as nat) >= 10,
                ;
            }
            return false;
        }
        if self.exponent == 0 {
            assert(pow10(0) == 1);
            assert(self.mantissa * 1 == self.mantissa);
            return self.mantissa <= 1;
        }
        let digits: u16 = (-(self.exponent as i32)) as u16;
        if self.mantissa == 1 {
            proof {
                lemma_pow10_grows(0, digits as nat);
            }
            return true;
        }
        let mut power: u64 = 1;
        let mut i: u16 = 0;
        while i < digits
            invariant
                i <= digits,
                power == pow10(i as nat),
                power < self.mantissa,
                digits == -self.exponent,
                self.positive,
                self.exponent < 0,
            decreases digits - i,
        {
            assert(pow10((i + 1) as nat) == 10 * pow10(i as nat)) by {
                reveal_with_fuel(pow10, 2);
            }
            if power > u64::MAX / 10 {
                proof {
                    lemma_pow10_grows((i + 1) as nat, digits as nat);
                    assert(10 * power > u64::MAX);
                }
                return true;
            }
            power = power * 10;
            i += 1;
            if self.mantissa <= power {
                proof {
                    lemma_pow10_grows(i as nat, digits as nat);
                }
                return true;
            }
        }
        false
    }

    /// The loudest level, 1.
    pub fn max() -> (level: Self)
        ensures
            level@ == (Decimal { positive: true, mantissa: 1, exponent: 0 }),
            level@.is_canonical(),
            level@.in_range(),
    {
        assert(pow10(0) == 1);
        VolumeLevel { positive: true, mantissa: 1, exponent: 0 }
    }

    /// The quietest level, 0.
    pub fn min() -> (level: Self)
        ensures
            level@ == (Decimal { positive: true, mantissa: 0, exponent: 0 }),
            level@.is_canonical(),
            level@.in_range(),
    {
        VolumeLevel { positive: true, mantissa: 0, exponent: 0 }
    }
}

} // verus!

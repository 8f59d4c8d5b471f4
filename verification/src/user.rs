//! User records: the identifier, the validated input of a create request, and
//! the record that the directory keeps.

use crate::date::parsed_date;
use crate::date::BirthDate;
use crate::date::CalendarDate;
use crate::date::is_calendar_date;
use crate::validation::fits;
use crate::validation::Field;
use crate::validation::UserName;
use crate::validation::UserNick;
use crate::validation::UserTech;
use crate::validation::ValidationError;
use vstd::prelude::*;

verus! {

/// The identifier of a user: 128 bits, assigned by the directory.
#[derive(Clone, Copy, Debug, PartialEq, Eq, Hash, Structural)]
pub struct UserId(pub u128);

/// Whether 128 bits are laid out as a version 7 UUID: the four bits from bit
/// 76 up hold the version, 7, and the two bits from bit 62 up hold the
/// variant, binary 10. The 48 bits above the version hold the time of making
/// and the rest are random; of those nothing can be said beforehand.
pub open spec fn is_version_7(bits: u128) -> bool {
    &&& (bits >> 76) & 0xf == 7
    &&& (bits >> 62) & 0x3 == 2
}

/// Calls `uuid::Uuid::now_v7` and hands over the 128 bits of the identifier it
/// made, as `uuid::Uuid::as_u128` packs them, first byte highest. `now_v7`
/// builds the identifier with version 7 and the RFC variant whatever the clock
/// and the random source give, and that is all that is claimed here. `now_v7`
/// panics only if the system clock reads a time before 1970.
#[verifier::external_body]
fn now_v7_bits() -> (bits: u128)
    ensures
        is_version_7(bits),
{
    uuid::Uuid::now_v7().as_u128()
}

/// A fresh identifier, laid out as a version 7 UUID. Identifiers made later
/// in one process are larger.
pub fn next_id() -> (id: UserId)
    ensures
        is_version_7(id.0),
{
    UserId(now_v7_bits())
}

/// The body of a create request as it arrives: plain text, nothing checked.
#[derive(Debug)]
pub struct NewUserRequest {
    pub name: String,
    pub nick: String,
    pub birth_date: String,
    pub stack: Option<Vec<String>>,
}

/// View of a `NewUserRequest`.
pub struct RequestView {
    pub name: Seq<char>,
    pub nick: Seq<char>,
    pub birth_date: Seq<char>,
    pub stack: Option<Seq<Seq<char>>>,
}

/// The texts of a list of strings.
pub open spec fn texts(strings: Seq<String>) -> Seq<Seq<char>> {
    Seq::new(strings.len(), |i: int| strings[i]@)
}

/// The texts of a list of validated tags.
pub open spec fn tag_texts(tags: Seq<UserTech>) -> Seq<Seq<char>> {
    Seq::new(tags.len(), |i: int| tags[i]@)
}

impl View for NewUserRequest {
    type V = RequestView;

    open spec fn view(&self) -> RequestView {
        RequestView {
            name: self.name@,
            nick: self.nick@,
            birth_date: self.birth_date@,
            stack: match self.stack {
                Some(tags) => Some(texts(tags@)),
                None => None,
            },
        }
    }
}

/// A create request that passed every check.
#[derive(Debug)]
pub struct NewUser {
    pub name: UserName,
    pub nick: UserNick,
    pub birth_date: BirthDate,
    pub stack: Option<Vec<UserTech>>,
}

/// View of a `NewUser`.
pub struct NewUserView {
    pub name: Seq<char>,
    pub nick: Seq<char>,
    pub birth_date: CalendarDate,
    pub stack: Option<Seq<Seq<char>>>,
}

impl View for NewUser {
    type V = NewUserView;

    open spec fn view(&self) -> NewUserView {
        NewUserView {
            name: self.name@,
            nick: self.nick@,
            birth_date: self.birth_date@,
            stack: match self.stack {
                Some(tags) => Some(tag_texts(tags@)),
                None => None,
            },
        }
    }
}

/// Every tag of the list fits the tag limit.
pub open spec fn all_tags_fit(tags: Seq<Seq<char>>) -> bool {
    forall|i: int| 0 <= i < tags.len() ==> fits(Field::Tech, #[trigger] tags[i])
}

/// What checking a request yields. The fields are checked in the order name,
/// nick, birth date, stack, and the first failure is the error.
pub open spec fn validated(request: RequestView) -> Result<NewUserView, ValidationError> {
    if !fits(Field::Name, request.name) {
        Err(ValidationError::TooLong(Field::Name))
    } else if !fits(Field::Nick, request.nick) {
        Err(ValidationError::TooLong(Field::Nick))
    } else if parsed_date(request.birth_date) is None {
        Err(ValidationError::InvalidDate)
    } else if request.stack is Some && !all_tags_fit(request.stack->Some_0) {
        Err(ValidationError::TooLong(Field::Tech))
    } else {
        Ok(
            NewUserView {
                name: request.name,
                nick: request.nick,
                birth_date: parsed_date(request.birth_date)->Some_0,
                stack: request.stack,
            },
        )
    }
}

/// Checks each tag of a stack, in order.
pub fn validate_stack(tags: Vec<String>) -> (outcome: Result<Vec<UserTech>, ValidationError>)
    ensures
        all_tags_fit(texts(tags@)) ==> outcome is Ok && tag_texts(outcome->Ok_0@) == texts(tags@),
        !all_tags_fit(texts(tags@)) ==> outcome == Err::<Vec<UserTech>, ValidationError>(
            ValidationError::TooLong(Field::Tech),
        ),
{
    let ghost all = texts(tags@);
    let mut valid: Vec<UserTech> = Vec::new();
    for tag in it: tags
        invariant
            it.seq() == tags@,
            all == texts(tags@),
            valid.len() == it.index(),
            forall|i: int| 0 <= i < valid.len() ==> valid[i]@ == all[i],
            forall|i: int| 0 <= i < valid.len() ==> fits(Field::Tech, #[trigger] all[i]),
    {
        assert(tag@ == all[it.index() as int]);
        match UserTech::try_from(tag) {
            Ok(tech) => {
                valid.push(tech);
            },
            Err(error) => {
                return Err(error);
            },
        }
    }
    assert(tag_texts(valid@) =~= all);
    Ok(valid)
}

impl NewUser {
    /// Checks a request: the limits on name, nick and each tag, and the form of
    /// the birth date.
    pub fn validate(request: NewUserRequest) -> (outcome: Result<NewUser, ValidationError>)
        ensures
            match validated(request@) {
                Ok(new_user) => outcome is Ok && outcome->Ok_0@ == new_user,
                Err(error) => outcome == Err::<NewUser, ValidationError>(error),
            },
    {
        let name = match UserName::try_from(request.name) {
            Ok(name) => name,
            Err(error) => {
                return Err(error);
            },
        };
        let nick = match UserNick::try_from(request.nick) {
            Ok(nick) => nick,
            Err(error) => {
                return Err(error);
            },
        };
        let birth_date = match BirthDate::parse(request.birth_date.as_str()) {
            Ok(birth_date) => birth_date,
            Err(error) => {
                return Err(error);
            },
        };
        let stack = match request.stack {
            Some(tags) => match validate_stack(tags) {
                Ok(valid) => Some(valid),
                Err(error) => {
                    return Err(error);
                },
            },
            None => None,
        };
        Ok(NewUser { name, nick, birth_date, stack })
    }
}

/// A user of the directory, as the store keeps it.
#[derive(Debug)]
pub struct User {
    id: UserId,
    name: String,
    nick: String,
    birth_date: BirthDate,
    stack: Option<Vec<String>>,
}

/// View of a `User`.
pub struct UserView {
    pub id: u128,
    pub name: Seq<char>,
    pub nick: Seq<char>,
    pub birth_date: CalendarDate,
    pub stack: Option<Seq<Seq<char>>>,
}

impl View for User {
    type V = UserView;

    closed spec fn view(&self) -> UserView {
        UserView {
            id: self.id.0,
            name: self.name@,
            nick: self.nick@,
            birth_date: self.birth_date@,
            stack: match self.stack {
                Some(tags) => Some(texts(tags@)),
                None => None,
            },
        }
    }
}

/// What every record satisfies: each text within its limit, and a birth date
/// that exists.
pub open spec fn valid_record(user: UserView) -> bool {
    &&& fits(Field::Name, user.name)
    &&& fits(Field::Nick, user.nick)
    &&& is_calendar_date(user.birth_date.year, user.birth_date.month, user.birth_date.day)
    &&& user.stack matches Some(tags) ==> all_tags_fit(tags)
}

/// The record made of an identifier and a checked request.
pub open spec fn record_of(id: u128, new_user: NewUserView) -> UserView {
    UserView {
        id,
        name: new_user.name,
        nick: new_user.nick,
        birth_date: new_user.birth_date,
        stack: new_user.stack,
    }
}

fn plain_stack(tags: Vec<UserTech>) -> (plain: Vec<String>)
    ensures
        texts(plain@) == tag_texts(tags@),
        all_tags_fit(texts(plain@)),
{
    let ghost all = tag_texts(tags@);
    let mut plain: Vec<String> = Vec::new();
    for tag in it: tags
        invariant
            it.seq() == tags@,
            all == tag_texts(tags@),
            plain.len() == it.index(),
            forall|i: int| 0 <= i < plain.len() ==> plain[i]@ == all[i],
            forall|i: int| 0 <= i < plain.len() ==> fits(Field::Tech, #[trigger] all[i]),
    {
        assert(tag@ == all[it.index() as int]);
        plain.push(String::from(tag));
    }
    assert(texts(plain@) =~= all);
    plain
}

fn copy_stack(tags: &Vec<String>) -> (copy: Vec<String>)
    ensures
        copy@ == tags@,
{
    let mut copy: Vec<String> = Vec::new();
    let mut i: usize = 0;
    while i < tags.len()
        invariant
            i <= tags.len(),
            copy.len() == i,
            forall|j: int| 0 <= j < i ==> copy[j] == tags[j],
        decreases tags.len() - i,
    {
        copy.push(tags[i].clone());
        i += 1;
    }
    assert(copy@ =~= tags@);
    copy
}

impl User {
    #[verifier::type_invariant]
    pub(crate) open spec fn holds_valid_record(self) -> bool {
        valid_record(self@)
    }

    /// Makes the record of a checked request under the given identifier.
    pub fn new(id: UserId, new_user: NewUser) -> (user: User)
        ensures
            user@ == record_of(id.0, new_user@),
            valid_record(user@),
    {
        proof {
            use_type_invariant(&new_user.birth_date);
        }
        let stack = match new_user.stack {
            Some(tags) => Some(plain_stack(tags)),
            None => None,
        };
        User {
            id,
            name: String::from(new_user.name),
            nick: String::from(new_user.nick),
            birth_date: new_user.birth_date,
            stack,
        }
    }

    pub fn id(&self) -> (id: UserId)
        ensures
            id.0 == self@.id,
    {
        self.id
    }

    pub fn name(&self) -> (name: &str)
        ensures
            name@ == self@.name,
            fits(Field::Name, name@),
    {
        proof {
            use_type_invariant(self);
        }
        self.name.as_str()
    }

    pub fn nick(&self) -> (nick: &str)
        ensures
            nick@ == self@.nick,
            fits(Field::Nick, nick@),
    {
        proof {
            use_type_invariant(self);
        }
        self.nick.as_str()
    }

    pub fn birth_date(&self) -> (birth_date: BirthDate)
        ensures
            birth_date@ == self@.birth_date,
    {
        self.birth_date
    }

    /// The technology tags, in the order given; `None` when none were given.
    pub fn stack(&self) -> (stack: Option<&Vec<String>>)
        ensures
            match stack {
                Some(tags) => self@.stack == Some(texts(tags@)) && all_tags_fit(texts(tags@)),
                None => self@.stack is None,
            },
    {
        proof {
            use_type_invariant(self);
        }
        self.stack.as_ref()
    }
}

impl Clone for User {
    /// A copy that is equal in every field.
    fn clone(&self) -> (copy: User)
        ensures
            copy@ == self@,
    {
        proof {
            use_type_invariant(self);
        }
        let stack = match &self.stack {
            Some(tags) => Some(copy_stack(tags)),
            None => None,
        };
        User {
            id: self.id,
            name: self.name.clone(),
            nick: self.nick.clone(),
            birth_date: self.birth_date,
            stack,
        }
    }
}

} // verus!

use vstd::prelude::*;

verus! {

/// Whether `email_address` accepts the text as an email address.
pub uninterp spec fn email_is_valid(text: Seq<char>) -> bool;

/// The list of integers that a JSON text holds, or `None` where it holds no such list.
pub uninterp spec fn json_i32_list(text: Seq<char>) -> Option<Seq<i32>>;

/// Relies on `email_address::EmailAddress::is_valid`: whether the text parses as an
/// address; the answer depends on the text alone.
#[verifier::external_body]
fn check_email(text: &str) -> (r: bool)
    ensures
        r == email_is_valid(text@),
{
    email_address::EmailAddress::is_valid(text)
}

/// Relies on `serde_json::from_str::<Vec<i32>>`: reads a JSON array of integers, or
/// fails; the outcome depends on the text alone.
#[verifier::external_body]
fn parse_json_i32_list(text: &str) -> (r: Option<Vec<i32>>)
    ensures
        r is Some <==> json_i32_list(text@) is Some,
        r is Some ==> r->0@ == json_i32_list(text@)->0,
{
    serde_json::from_str::<Vec<i32>>(text).ok()
}

/// Why a subscription failed.
#[derive(Debug, Clone, Copy, PartialEq, Eq, Structural)]
pub enum MailingListsError {
    /// The list asked for is not one of the configured lists.
    InvalidMailingListId,
    /// The mailing-list service could not be reached.
    RequestError,
    /// The mailing-list service refused the subscriber or answered nonsense.
    ListmonkError,
}

impl MailingListsError {
    /// A short description of the error.
    pub fn message(&self) -> (r: &'static str)
        ensures
            r@ == (match *self {
                MailingListsError::InvalidMailingListId => "Invalid Mailing List ID"@,
                MailingListsError::ListmonkError => "Couldn't create subscriber in listmonk"@,
                MailingListsError::RequestError => "Couldn't make the request to listmonk"@,
            }),
    {
        match self {
            MailingListsError::InvalidMailingListId => "Invalid Mailing List ID",
            MailingListsError::ListmonkError => "Couldn't create subscriber in listmonk",
            MailingListsError::RequestError => "Couldn't make the request to listmonk",
        }
    }

    /// The HTTP status that a subscription request answers with on this error: 400 for
    /// an unknown list, 500 where the service failed.
    pub fn status_code(&self) -> (r: u16)
        ensures
            r == (match *self {
                MailingListsError::InvalidMailingListId => 400u16,
                _ => 500u16,
            }),
    {
        match self {
            MailingListsError::InvalidMailingListId => 400,
            _ => 500,
        }
    }
}

/// Someone who asks to be subscribed.
pub struct Subscriber {
    pub email: String,
}

impl Subscriber {
    /// Whether the email address is well formed.
    pub fn valid_email(&self) -> (r: bool)
        ensures
            r == email_is_valid(self.email@),
    {
        check_email(self.email.as_str())
    }
}

/// The request that creates a subscriber at the mailing-list service.
pub struct ListmonkCreateSubscriber {
    pub email: String,
    pub name: String,
    /// "enabled" or "disabled".
    pub status: String,
    pub lists: Vec<i32>,
}

impl ListmonkCreateSubscriber {
    /// An enabled subscriber named "NewsSubscriber" with the given address and lists.
    pub fn load(subscriber: &Subscriber, lists: Vec<i32>) -> (r: ListmonkCreateSubscriber)
        ensures
            r.email == subscriber.email,
            r.name@ == "NewsSubscriber"@,
            r.status@ == "enabled"@,
            r.lists == lists,
    {
        ListmonkCreateSubscriber {
            email: subscriber.email.clone(),
            name: "NewsSubscriber".to_owned(),
            status: "enabled".to_owned(),
            lists,
        }
    }
}

/// The request that adds existing subscribers to a list.
pub struct ListmonkAddSubscribers {
    pub ids: Vec<i32>,
    pub action: String,
    pub target_list_ids: Vec<i32>,
    pub status: String,
}

impl ListmonkAddSubscribers {
    /// Adds the subscriber `subscriber` to `desired_list`, unconfirmed.
    pub fn load(subscriber: i32, desired_list: i32) -> (r: ListmonkAddSubscribers)
        ensures
            r.ids@ == seq![subscriber],
            r.action@ == "add"@,
            r.target_list_ids@ == seq![desired_list],
            r.status@ == "unconfirmed"@,
    {
        let ids = vec![subscriber];
        let targets = vec![desired_list];
        assert(ids@ =~= seq![subscriber]);
        assert(targets@ =~= seq![desired_list]);
        ListmonkAddSubscribers {
            ids,
            action: "add".to_owned(),
            target_list_ids: targets,
            status: "unconfirmed".to_owned(),
        }
    }
}

/// Why the mailing-list settings were refused.
#[derive(Debug, Clone, Copy, PartialEq, Eq, Structural)]
pub enum MailingListsConfigError {
    /// The list ids are not a JSON array of integers.
    InvalidListIds,
}

/// The mailing-list service and the lists that may be subscribed to.
pub struct MailingLists {
    pub url: String,
    pub user: String,
    pub password: String,
    pub lists: Vec<i32>,
}

impl MailingLists {
    /// The settings, with the list ids given as a JSON array such as `[1, 4]`.
    pub fn load(url: &str, user: &str, password: String, lists: &str) -> (r: Result<
        MailingLists,
        MailingListsConfigError,
    >)
        ensures
            r is Ok <==> json_i32_list(lists@) is Some,
            r is Ok ==> r->Ok_0.url@ == url@ && r->Ok_0.user@ == user@ && r->Ok_0.password == password
                && r->Ok_0.lists@ == json_i32_list(lists@)->0,
    {
        match parse_json_i32_list(lists) {
            Some(ids) => Ok(MailingLists { url: url.to_owned(), user: user.to_owned(), password, lists: ids }),
            None => Err(MailingListsConfigError::InvalidListIds),
        }
    }

    /// The creation request for subscribing `subscriber` to `desired_list`, which must be
    /// one of the configured lists.
    pub fn subscription_request(&self, subscriber: &Subscriber, desired_list: i32) -> (r: Result<
        ListmonkCreateSubscriber,
        MailingListsError,
    >)
        ensures
            r is Err <==> !self.lists@.contains(desired_list),
            r is Err ==> r->Err_0 == MailingListsError::InvalidMailingListId,
            r is Ok ==> r->Ok_0.email == subscriber.email && r->Ok_0.lists@ == seq![desired_list]
                && r->Ok_0.name@ == "NewsSubscriber"@ && r->Ok_0.status@ == "enabled"@,
    {
        let mut i: usize = 0;
        let mut found = false;
        while i < self.lists.len()
            invariant
                i <= self.lists@.len(),
                found ==> self.lists@.contains(desired_list),
                !found ==> forall|k: int| 0 <= k < i ==> self.lists@[k] != desired_list,
            decreases self.lists.len() - i,
        {
            if self.lists[i] == desired_list {
                found = true;
                assert(self.lists@[i as int] == desired_list);
            }
            i = i + 1;
        }
        if !found {
            return Err(MailingListsError::InvalidMailingListId);
        }
        let lists = vec![desired_list];
        assert(lists@ =~= seq![desired_list]);
        Ok(ListmonkCreateSubscriber::load(subscriber, lists))
    }
}

/// What came of the creation request: `sent` tells whether the service answered at all,
/// `status` is the HTTP status it answered with, and `body_valid` whether its answer
/// reads as a created subscriber.
pub fn response_outcome(sent: bool, status: u16, body_valid: bool) -> (r: Result<(), MailingListsError>)
    ensures
        r == (if !sent {
            Err(MailingListsError::RequestError)
        } else if status != 200 || !body_valid {
            Err(MailingListsError::ListmonkError)
        } else {
            Ok(())
        }),
{
    if !sent {
        Err(MailingListsError::RequestError)
    } else if status != 200 || !body_valid {
        Err(MailingListsError::ListmonkError)
    } else {
        Ok(())
    }
}

} // verus!

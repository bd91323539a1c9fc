//! Delivery settings: the SMTP account, the target format and the
//! delete-after-send flag. The configuration is an explicit value handed
//! to whoever needs it; loading and storing it is the caller's business.

use vstd::prelude::*;

use std::collections::HashMap;

verus! {

/// The persisted settings for converting and sending a finished
/// document. Every field is kept as text, as the settings file holds it.
#[derive(Debug)]
pub struct PultConf {
    /// Whether a sent file is deleted afterwards ("true"/"false").
    pub del_sent: String,
    /// The extension of the target format.
    pub to_ext: String,
    /// The SMTP relay host.
    pub smtp: String,
    /// The SMTP port.
    pub port: String,
    /// The SMTP user name.
    pub username: String,
    /// The SMTP password.
    pub password: String,
    /// The sender address.
    pub from_mail: String,
    /// The recipient address.
    pub to_mail: String,
}

impl Default for PultConf {
    /// The settings a fresh installation starts from.
    fn default() -> (r: Self)
        ensures
            r.del_sent@ == "false"@,
            r.to_ext@ == "mobi"@,
            r.smtp@ == "smtp.gmail.com"@,
            r.port@ == "587"@,
            r.username@ == "user.name"@,
            r.password@ == "your-password"@,
            r.from_mail@ == "user.name@gmail.com"@,
            r.to_mail@ == "ebook-mail@kindle.com"@,
    {
        Self {
            del_sent: String::from_str("false"),
            to_ext: String::from_str("mobi"),
            smtp: String::from_str("smtp.gmail.com"),
            port: String::from_str("587"),
            username: String::from_str("user.name"),
            password: String::from_str("your-password"),
            from_mail: String::from_str("user.name@gmail.com"),
            to_mail: String::from_str("ebook-mail@kindle.com"),
        }
    }
}

impl PultConf {
    /// The settings as a name-to-value table, one entry per field.
    /// (Nothing further is stated: Verus gives a `HashMap` with `String`
    /// keys no key model, so its contents stay opaque here.)
    pub fn dump_to_hashmap(&self) -> HashMap<String, String> {
        let mut values: HashMap<String, String> = HashMap::new();
        values.insert(String::from_str("del_sent"), self.del_sent.clone());
        values.insert(String::from_str("to_ext"), self.to_ext.clone());
        values.insert(String::from_str("smtp"), self.smtp.clone());
        values.insert(String::from_str("port"), self.port.clone());
        values.insert(String::from_str("username"), self.username.clone());
        values.insert(String::from_str("password"), self.password.clone());
        values.insert(String::from_str("from_mail"), self.from_mail.clone());
        values.insert(String::from_str("to_mail"), self.to_mail.clone());
        values
    }
}

} // verus!

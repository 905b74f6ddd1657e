//! The record models: raw bosses, paired bosses and raid invitations.
use vstd::prelude::*;
use vstd::string::*;
use crate::language::{language_name, Language};
use crate::text::owned;

verus! {

/// The value of a paired boss record.
pub struct RaidBossView {
    pub en_name: Seq<char>,
    pub jp_name: Seq<char>,
    pub level: i32,
    pub image: Seq<char>,
}

/// The value of a raw boss record.
pub struct RaidBossRawView {
    pub boss_name: Seq<char>,
    pub level: i32,
    pub image: Seq<char>,
    pub language: Seq<char>,
}

/// The value of an invitation record.
pub struct RaidTweetView {
    pub tweet_id: u64,
    pub screen_name: Seq<char>,
    pub boss_name: Seq<char>,
    pub raid_id: Seq<char>,
    pub text: Seq<char>,
    pub created: u64,
    pub language: Seq<char>,
    pub profile_image: Seq<char>,
}

impl View for RaidBoss {
    type V = RaidBossView;

    open spec fn view(&self) -> RaidBossView {
        RaidBossView {
            en_name: self.en_name@,
            jp_name: self.jp_name@,
            level: self.level,
            image: self.image@,
        }
    }
}

impl View for RaidBossRaw {
    type V = RaidBossRawView;

    open spec fn view(&self) -> RaidBossRawView {
        RaidBossRawView {
            boss_name: self.boss_name@,
            level: self.level,
            image: self.image@,
            language: self.language@,
        }
    }
}

impl View for RaidTweet {
    type V = RaidTweetView;

    open spec fn view(&self) -> RaidTweetView {
        RaidTweetView {
            tweet_id: self.tweet_id,
            screen_name: self.screen_name@,
            boss_name: self.boss_name@,
            raid_id: self.raid_id@,
            text: self.text@,
            created: self.created,
            language: self.language@,
            profile_image: self.profile_image@,
        }
    }
}

/// A boss record paired across the two languages.
#[derive(Debug)]
pub struct RaidBoss {
    pub en_name: String,
    pub jp_name: String,
    pub level: i32,
    pub image: String,
}

impl Clone for RaidBoss {
    fn clone(&self) -> (r: Self)
        ensures
            r == *self,
    {
        RaidBoss {
            en_name: self.en_name.clone(),
            jp_name: self.jp_name.clone(),
            level: self.level,
            image: self.image.clone(),
        }
    }
}

impl RaidBoss {
    /// A record with every field empty or zero.
    pub fn new() -> (r: RaidBoss)
        ensures
            r.en_name@.len() == 0,
            r.jp_name@.len() == 0,
            r.level == 0,
            r.image@.len() == 0,
    {
        RaidBoss {
            en_name: String::new(),
            jp_name: String::new(),
            level: 0,
            image: String::new(),
        }
    }

    /// A record with the given fields; a language is stored by its long name.
    pub fn with_args(en_name: &str, jp_name: &str, level: i32, image: &str) -> (r: RaidBoss)
        ensures
            r.en_name@ == en_name@,
            r.jp_name@ == jp_name@,
            r.level == level,
            r.image@ == image@,
    {
        RaidBoss {
            en_name: owned(en_name),
            jp_name: owned(jp_name),
            level,
            image: owned(image),
        }
    }

    pub fn get_en_name(&self) -> (r: &str)
        ensures
            r@ == self.en_name@,
    {
        self.en_name.as_str()
    }

    pub fn clear_en_name(&mut self)
        ensures
            final(self).en_name@.len() == 0,
            *final(self) == (RaidBoss { en_name: final(self).en_name, jp_name: old(self).jp_name, level: old(self).level, image: old(self).image }),
    {
        self.en_name = String::new();
    }

    pub fn set_en_name(&mut self, v: String)
        ensures
            *final(self) == (RaidBoss { en_name: v, jp_name: old(self).jp_name, level: old(self).level, image: old(self).image }),
    {
        self.en_name = v;
    }

    /// The field itself, for changing in place.
    pub fn mut_en_name(&mut self) -> (r: &mut String)
        ensures
            *r == old(self).en_name,
            *final(self) == (RaidBoss { en_name: *final(r), jp_name: old(self).jp_name, level: old(self).level, image: old(self).image }),
    {
        &mut self.en_name
    }

    /// Moves the field out, leaving it empty.
    pub fn take_en_name(&mut self) -> (r: String)
        ensures
            r == old(self).en_name,
            final(self).en_name@.len() == 0,
            *final(self) == (RaidBoss { en_name: final(self).en_name, jp_name: old(self).jp_name, level: old(self).level, image: old(self).image }),
    {
        let mut r = String::new();
        std::mem::swap(&mut self.en_name, &mut r);
        r
    }

    pub fn get_jp_name(&self) -> (r: &str)
        ensures
            r@ == self.jp_name@,
    {
        self.jp_name.as_str()
    }

    pub fn clear_jp_name(&mut self)
        ensures
            final(self).jp_name@.len() == 0,
            *final(self) == (RaidBoss { jp_name: final(self).jp_name, en_name: old(self).en_name, level: old(self).level, image: old(self).image }),
    {
        self.jp_name = String::new();
    }

    pub fn set_jp_name(&mut self, v: String)
        ensures
            *final(self) == (RaidBoss { jp_name: v, en_name: old(self).en_name, level: old(self).level, image: old(self).image }),
    {
        self.jp_name = v;
    }

    /// The field itself, for changing in place.
    pub fn mut_jp_name(&mut self) -> (r: &mut String)
        ensures
            *r == old(self).jp_name,
            *final(self) == (RaidBoss { jp_name: *final(r), en_name: old(self).en_name, level: old(self).level, image: old(self).image }),
    {
        &mut self.jp_name
    }

    /// Moves the field out, leaving it empty.
    pub fn take_jp_name(&mut self) -> (r: String)
        ensures
            r == old(self).jp_name,
            final(self).jp_name@.len() == 0,
            *final(self) == (RaidBoss { jp_name: final(self).jp_name, en_name: old(self).en_name, level: old(self).level, image: old(self).image }),
    {
        let mut r = String::new();
        std::mem::swap(&mut self.jp_name, &mut r);
        r
    }

    pub fn get_level(&self) -> (r: i32)
        ensures
            r == self.level,
    {
        self.level
    }

    pub fn clear_level(&mut self)
        ensures
            *final(self) == (RaidBoss { level: 0, en_name: old(self).en_name, jp_name: old(self).jp_name, image: old(self).image }),
    {
        self.level = 0;
    }

    pub fn set_level(&mut self, v: i32)
        ensures
            *final(self) == (RaidBoss { level: v, en_name: old(self).en_name, jp_name: old(self).jp_name, image: old(self).image }),
    {
        self.level = v;
    }

    pub fn get_image(&self) -> (r: &str)
        ensures
            r@ == self.image@,
    {
        self.image.as_str()
    }

    pub fn clear_image(&mut self)
        ensures
            final(self).image@.len() == 0,
            *final(self) == (RaidBoss { image: final(self).image, en_name: old(self).en_name, jp_name: old(self).jp_name, level: old(self).level }),
    {
        self.image = String::new();
    }

    pub fn set_image(&mut self, v: String)
        ensures
            *final(self) == (RaidBoss { image: v, en_name: old(self).en_name, jp_name: old(self).jp_name, level: old(self).level }),
    {
        self.image = v;
    }

    /// The field itself, for changing in place.
    pub fn mut_image(&mut self) -> (r: &mut String)
        ensures
            *r == old(self).image,
            *final(self) == (RaidBoss { image: *final(r), en_name: old(self).en_name, jp_name: old(self).jp_name, level: old(self).level }),
    {
        &mut self.image
    }

    /// Moves the field out, leaving it empty.
    pub fn take_image(&mut self) -> (r: String)
        ensures
            r == old(self).image,
            final(self).image@.len() == 0,
            *final(self) == (RaidBoss { image: final(self).image, en_name: old(self).en_name, jp_name: old(self).jp_name, level: old(self).level }),
    {
        let mut r = String::new();
        std::mem::swap(&mut self.image, &mut r);
        r
    }

}

/// A boss as observed in one language, before pairing.
#[derive(Debug)]
pub struct RaidBossRaw {
    pub boss_name: String,
    pub level: i32,
    pub image: String,
    pub language: String,
}

impl Clone for RaidBossRaw {
    fn clone(&self) -> (r: Self)
        ensures
            r == *self,
    {
        RaidBossRaw {
            boss_name: self.boss_name.clone(),
            level: self.level,
            image: self.image.clone(),
            language: self.language.clone(),
        }
    }
}

impl RaidBossRaw {
    /// A record with every field empty or zero.
    pub fn new() -> (r: RaidBossRaw)
        ensures
            r.boss_name@.len() == 0,
            r.level == 0,
            r.image@.len() == 0,
            r.language@.len() == 0,
    {
        RaidBossRaw {
            boss_name: String::new(),
            level: 0,
            image: String::new(),
            language: String::new(),
        }
    }

    /// A record with the given fields; a language is stored by its long name.
    pub fn with_args(boss_name: &str, level: i32, image: &str, language: Language) -> (r: RaidBossRaw)
        ensures
            r.boss_name@ == boss_name@,
            r.level == level,
            r.image@ == image@,
            r.language@ == language_name(language),
    {
        RaidBossRaw {
            boss_name: owned(boss_name),
            level,
            image: owned(image),
            language: language.name(),
        }
    }

    pub fn get_boss_name(&self) -> (r: &str)
        ensures
            r@ == self.boss_name@,
    {
        self.boss_name.as_str()
    }

    pub fn clear_boss_name(&mut self)
        ensures
            final(self).boss_name@.len() == 0,
            *final(self) == (RaidBossRaw { boss_name: final(self).boss_name, level: old(self).level, image: old(self).image, language: old(self).language }),
    {
        self.boss_name = String::new();
    }

    pub fn set_boss_name(&mut self, v: String)
        ensures
            *final(self) == (RaidBossRaw { boss_name: v, level: old(self).level, image: old(self).image, language: old(self).language }),
    {
        self.boss_name = v;
    }

    /// The field itself, for changing in place.
    pub fn mut_boss_name(&mut self) -> (r: &mut String)
        ensures
            *r == old(self).boss_name,
            *final(self) == (RaidBossRaw { boss_name: *final(r), level: old(self).level, image: old(self).image, language: old(self).language }),
    {
        &mut self.boss_name
    }

    /// Moves the field out, leaving it empty.
    pub fn take_boss_name(&mut self) -> (r: String)
        ensures
            r == old(self).boss_name,
            final(self).boss_name@.len() == 0,
            *final(self) == (RaidBossRaw { boss_name: final(self).boss_name, level: old(self).level, image: old(self).image, language: old(self).language }),
    {
        let mut r = String::new();
        std::mem::swap(&mut self.boss_name, &mut r);
        r
    }

    pub fn get_level(&self) -> (r: i32)
        ensures
            r == self.level,
    {
        self.level
    }

    pub fn clear_level(&mut self)
        ensures
            *final(self) == (RaidBossRaw { level: 0, boss_name: old(self).boss_name, image: old(self).image, language: old(self).language }),
    {
        self.level = 0;
    }

    pub fn set_level(&mut self, v: i32)
        ensures
            *final(self) == (RaidBossRaw { level: v, boss_name: old(self).boss_name, image: old(self).image, language: old(self).language }),
    {
        self.level = v;
    }

    pub fn get_image(&self) -> (r: &str)
        ensures
            r@ == self.image@,
    {
        self.image.as_str()
    }

    pub fn clear_image(&mut self)
        ensures
            final(self).image@.len() == 0,
            *final(self) == (RaidBossRaw { image: final(self).image, boss_name: old(self).boss_name, level: old(self).level, language: old(self).language }),
    {
        self.image = String::new();
    }

    pub fn set_image(&mut self, v: String)
        ensures
            *final(self) == (RaidBossRaw { image: v, boss_name: old(self).boss_name, level: old(self).level, language: old(self).language }),
    {
        self.image = v;
    }

    /// The field itself, for changing in place.
    pub fn mut_image(&mut self) -> (r: &mut String)
        ensures
            *r == old(self).image,
            *final(self) == (RaidBossRaw { image: *final(r), boss_name: old(self).boss_name, level: old(self).level, language: old(self).language }),
    {
        &mut self.image
    }

    /// Moves the field out, leaving it empty.
    pub fn take_image(&mut self) -> (r: String)
        ensures
            r == old(self).image,
            final(self).image@.len() == 0,
            *final(self) == (RaidBossRaw { image: final(self).image, boss_name: old(self).boss_name, level: old(self).level, language: old(self).language }),
    {
        let mut r = String::new();
        std::mem::swap(&mut self.image, &mut r);
        r
    }

    pub fn get_language(&self) -> (r: &str)
        ensures
            r@ == self.language@,
    {
        self.language.as_str()
    }

    pub fn clear_language(&mut self)
        ensures
            final(self).language@.len() == 0,
            *final(self) == (RaidBossRaw { language: final(self).language, boss_name: old(self).boss_name, level: old(self).level, image: old(self).image }),
    {
        self.language = String::new();
    }

    pub fn set_language(&mut self, v: String)
        ensures
            *final(self) == (RaidBossRaw { language: v, boss_name: old(self).boss_name, level: old(self).level, image: old(self).image }),
    {
        self.language = v;
    }

    /// The field itself, for changing in place.
    pub fn mut_language(&mut self) -> (r: &mut String)
        ensures
            *r == old(self).language,
            *final(self) == (RaidBossRaw { language: *final(r), boss_name: old(self).boss_name, level: old(self).level, image: old(self).image }),
    {
        &mut self.language
    }

    /// Moves the field out, leaving it empty.
    pub fn take_language(&mut self) -> (r: String)
        ensures
            r == old(self).language,
            final(self).language@.len() == 0,
            *final(self) == (RaidBossRaw { language: final(self).language, boss_name: old(self).boss_name, level: old(self).level, image: old(self).image }),
    {
        let mut r = String::new();
        std::mem::swap(&mut self.language, &mut r);
        r
    }

}

/// A raid invitation, normalised for persistence and broadcast.
#[derive(Debug)]
pub struct RaidTweet {
    pub tweet_id: u64,
    pub screen_name: String,
    pub boss_name: String,
    pub raid_id: String,
    pub text: String,
    pub created: u64,
    pub language: String,
    pub profile_image: String,
}

impl Clone for RaidTweet {
    fn clone(&self) -> (r: Self)
        ensures
            r == *self,
    {
        RaidTweet {
            tweet_id: self.tweet_id,
            screen_name: self.screen_name.clone(),
            boss_name: self.boss_name.clone(),
            raid_id: self.raid_id.clone(),
            text: self.text.clone(),
            created: self.created,
            language: self.language.clone(),
            profile_image: self.profile_image.clone(),
        }
    }
}

impl RaidTweet {
    /// A record with every field empty or zero.
    pub fn new() -> (r: RaidTweet)
        ensures
            r.tweet_id == 0,
            r.screen_name@.len() == 0,
            r.boss_name@.len() == 0,
            r.raid_id@.len() == 0,
            r.text@.len() == 0,
            r.created == 0,
            r.language@.len() == 0,
            r.profile_image@.len() == 0,
    {
        RaidTweet {
            tweet_id: 0,
            screen_name: String::new(),
            boss_name: String::new(),
            raid_id: String::new(),
            text: String::new(),
            created: 0,
            language: String::new(),
            profile_image: String::new(),
        }
    }

    /// A record with the given fields; a language is stored by its long name.
    pub fn with_args(tweet_id: u64, screen_name: &str, created: u64, boss_name: &str, raid_id: &str, text: &str, language: Language, profile_image: &str) -> (r: RaidTweet)
        ensures
            r.tweet_id == tweet_id,
            r.screen_name@ == screen_name@,
            r.created == created,
            r.boss_name@ == boss_name@,
            r.raid_id@ == raid_id@,
            r.text@ == text@,
            r.language@ == language_name(language),
            r.profile_image@ == profile_image@,
    {
        RaidTweet {
            tweet_id,
            screen_name: owned(screen_name),
            boss_name: owned(boss_name),
            raid_id: owned(raid_id),
            text: owned(text),
            created,
            language: language.name(),
            profile_image: owned(profile_image),
        }
    }

    pub fn get_tweet_id(&self) -> (r: u64)
        ensures
            r == self.tweet_id,
    {
        self.tweet_id
    }

    pub fn clear_tweet_id(&mut self)
        ensures
            *final(self) == (RaidTweet { tweet_id: 0, screen_name: old(self).screen_name, boss_name: old(self).boss_name, raid_id: old(self).raid_id, text: old(self).text, created: old(self).created, language: old(self).language, profile_image: old(self).profile_image }),
    {
        self.tweet_id = 0;
    }

    pub fn set_tweet_id(&mut self, v: u64)
        ensures
            *final(self) == (RaidTweet { tweet_id: v, screen_name: old(self).screen_name, boss_name: old(self).boss_name, raid_id: old(self).raid_id, text: old(self).text, created: old(self).created, language: old(self).language, profile_image: old(self).profile_image }),
    {
        self.tweet_id = v;
    }

    pub fn get_screen_name(&self) -> (r: &str)
        ensures
            r@ == self.screen_name@,
    {
        self.screen_name.as_str()
    }

    pub fn clear_screen_name(&mut self)
        ensures
            final(self).screen_name@.len() == 0,
            *final(self) == (RaidTweet { screen_name: final(self).screen_name, tweet_id: old(self).tweet_id, boss_name: old(self).boss_name, raid_id: old(self).raid_id, text: old(self).text, created: old(self).created, language: old(self).language, profile_image: old(self).profile_image }),
    {
        self.screen_name = String::new();
    }

    pub fn set_screen_name(&mut self, v: String)
        ensures
            *final(self) == (RaidTweet { screen_name: v, tweet_id: old(self).tweet_id, boss_name: old(self).boss_name, raid_id: old(self).raid_id, text: old(self).text, created: old(self).created, language: old(self).language, profile_image: old(self).profile_image }),
    {
        self.screen_name = v;
    }

    /// The field itself, for changing in place.
    pub fn mut_screen_name(&mut self) -> (r: &mut String)
        ensures
            *r == old(self).screen_name,
            *final(self) == (RaidTweet { screen_name: *final(r), tweet_id: old(self).tweet_id, boss_name: old(self).boss_name, raid_id: old(self).raid_id, text: old(self).text, created: old(self).created, language: old(self).language, profile_image: old(self).profile_image }),
    {
        &mut self.screen_name
    }

    /// Moves the field out, leaving it empty.
    pub fn take_screen_name(&mut self) -> (r: String)
        ensures
            r == old(self).screen_name,
            final(self).screen_name@.len() == 0,
            *final(self) == (RaidTweet { screen_name: final(self).screen_name, tweet_id: old(self).tweet_id, boss_name: old(self).boss_name, raid_id: old(self).raid_id, text: old(self).text, created: old(self).created, language: old(self).language, profile_image: old(self).profile_image }),
    {
        let mut r = String::new();
        std::mem::swap(&mut self.screen_name, &mut r);
        r
    }

    pub fn get_boss_name(&self) -> (r: &str)
        ensures
            r@ == self.boss_name@,
    {
        self.boss_name.as_str()
    }

    pub fn clear_boss_name(&mut self)
        ensures
            final(self).boss_name@.len() == 0,
            *final(self) == (RaidTweet { boss_name: final(self).boss_name, tweet_id: old(self).tweet_id, screen_name: old(self).screen_name, raid_id: old(self).raid_id, text: old(self).text, created: old(self).created, language: old(self).language, profile_image: old(self).profile_image }),
    {
        self.boss_name = String::new();
    }

    pub fn set_boss_name(&mut self, v: String)
        ensures
            *final(self) == (RaidTweet { boss_name: v, tweet_id: old(self).tweet_id, screen_name: old(self).screen_name, raid_id: old(self).raid_id, text: old(self).text, created: old(self).created, language: old(self).language, profile_image: old(self).profile_image }),
    {
        self.boss_name = v;
    }

    /// The field itself, for changing in place.
    pub fn mut_boss_name(&mut self) -> (r: &mut String)
        ensures
            *r == old(self).boss_name,
            *final(self) == (RaidTweet { boss_name: *final(r), tweet_id: old(self).tweet_id, screen_name: old(self).screen_name, raid_id: old(self).raid_id, text: old(self).text, created: old(self).created, language: old(self).language, profile_image: old(self).profile_image }),
    {
        &mut self.boss_name
    }

    /// Moves the field out, leaving it empty.
    pub fn take_boss_name(&mut self) -> (r: String)
        ensures
            r == old(self).boss_name,
            final(self).boss_name@.len() == 0,
            *final(self) == (RaidTweet { boss_name: final(self).boss_name, tweet_id: old(self).tweet_id, screen_name: old(self).screen_name, raid_id: old(self).raid_id, text: old(self).text, created: old(self).created, language: old(self).language, profile_image: old(self).profile_image }),
    {
        let mut r = String::new();
        std::mem::swap(&mut self.boss_name, &mut r);
        r
    }

    pub fn get_raid_id(&self) -> (r: &str)
        ensures
            r@ == self.raid_id@,
    {
        self.raid_id.as_str()
    }

    pub fn clear_raid_id(&mut self)
        ensures
            final(self).raid_id@.len() == 0,
            *final(self) == (RaidTweet { raid_id: final(self).raid_id, tweet_id: old(self).tweet_id, screen_name: old(self).screen_name, boss_name: old(self).boss_name, text: old(self).text, created: old(self).created, language: old(self).language, profile_image: old(self).profile_image }),
    {
        self.raid_id = String::new();
    }

    pub fn set_raid_id(&mut self, v: String)
        ensures
            *final(self) == (RaidTweet { raid_id: v, tweet_id: old(self).tweet_id, screen_name: old(self).screen_name, boss_name: old(self).boss_name, text: old(self).text, created: old(self).created, language: old(self).language, profile_image: old(self).profile_image }),
    {
        self.raid_id = v;
    }

    /// The field itself, for changing in place.
    pub fn mut_raid_id(&mut self) -> (r: &mut String)
        ensures
            *r == old(self).raid_id,
            *final(self) == (RaidTweet { raid_id: *final(r), tweet_id: old(self).tweet_id, screen_name: old(self).screen_name, boss_name: old(self).boss_name, text: old(self).text, created: old(self).created, language: old(self).language, profile_image: old(self).profile_image }),
    {
        &mut self.raid_id
    }

    /// Moves the field out, leaving it empty.
    pub fn take_raid_id(&mut self) -> (r: String)
        ensures
            r == old(self).raid_id,
            final(self).raid_id@.len() == 0,
            *final(self) == (RaidTweet { raid_id: final(self).raid_id, tweet_id: old(self).tweet_id, screen_name: old(self).screen_name, boss_name: old(self).boss_name, text: old(self).text, created: old(self).created, language: old(self).language, profile_image: old(self).profile_image }),
    {
        let mut r = String::new();
        std::mem::swap(&mut self.raid_id, &mut r);
        r
    }

    pub fn get_text(&self) -> (r: &str)
        ensures
            r@ == self.text@,
    {
        self.text.as_str()
    }

    pub fn clear_text(&mut self)
        ensures
            final(self).text@.len() == 0,
            *final(self) == (RaidTweet { text: final(self).text, tweet_id: old(self).tweet_id, screen_name: old(self).screen_name, boss_name: old(self).boss_name, raid_id: old(self).raid_id, created: old(self).created, language: old(self).language, profile_image: old(self).profile_image }),
    {
        self.text = String::new();
    }

    pub fn set_text(&mut self, v: String)
        ensures
            *final(self) == (RaidTweet { text: v, tweet_id: old(self).tweet_id, screen_name: old(self).screen_name, boss_name: old(self).boss_name, raid_id: old(self).raid_id, created: old(self).created, language: old(self).language, profile_image: old(self).profile_image }),
    {
        self.text = v;
    }

    /// The field itself, for changing in place.
    pub fn mut_text(&mut self) -> (r: &mut String)
        ensures
            *r == old(self).text,
            *final(self) == (RaidTweet { text: *final(r), tweet_id: old(self).tweet_id, screen_name: old(self).screen_name, boss_name: old(self).boss_name, raid_id: old(self).raid_id, created: old(self).created, language: old(self).language, profile_image: old(self).profile_image }),
    {
        &mut self.text
    }

    /// Moves the field out, leaving it empty.
    pub fn take_text(&mut self) -> (r: String)
        ensures
            r == old(self).text,
            final(self).text@.len() == 0,
            *final(self) == (RaidTweet { text: final(self).text, tweet_id: old(self).tweet_id, screen_name: old(self).screen_name, boss_name: old(self).boss_name, raid_id: old(self).raid_id, created: old(self).created, language: old(self).language, profile_image: old(self).profile_image }),
    {
        let mut r = String::new();
        std::mem::swap(&mut self.text, &mut r);
        r
    }

    pub fn get_created(&self) -> (r: u64)
        ensures
            r == self.created,
    {
        self.created
    }

    pub fn clear_created(&mut self)
        ensures
            *final(self) == (RaidTweet { created: 0, tweet_id: old(self).tweet_id, screen_name: old(self).screen_name, boss_name: old(self).boss_name, raid_id: old(self).raid_id, text: old(self).text, language: old(self).language, profile_image: old(self).profile_image }),
    {
        self.created = 0;
    }

    pub fn set_created(&mut self, v: u64)
        ensures
            *final(self) == (RaidTweet { created: v, tweet_id: old(self).tweet_id, screen_name: old(self).screen_name, boss_name: old(self).boss_name, raid_id: old(self).raid_id, text: old(self).text, language: old(self).language, profile_image: old(self).profile_image }),
    {
        self.created = v;
    }

    pub fn get_language(&self) -> (r: &str)
        ensures
            r@ == self.language@,
    {
        self.language.as_str()
    }

    pub fn clear_language(&mut self)
        ensures
            final(self).language@.len() == 0,
            *final(self) == (RaidTweet { language: final(self).language, tweet_id: old(self).tweet_id, screen_name: old(self).screen_name, boss_name: old(self).boss_name, raid_id: old(self).raid_id, text: old(self).text, created: old(self).created, profile_image: old(self).profile_image }),
    {
        self.language = String::new();
    }

    pub fn set_language(&mut self, v: String)
        ensures
            *final(self) == (RaidTweet { language: v, tweet_id: old(self).tweet_id, screen_name: old(self).screen_name, boss_name: old(self).boss_name, raid_id: old(self).raid_id, text: old(self).text, created: old(self).created, profile_image: old(self).profile_image }),
    {
        self.language = v;
    }

    /// The field itself, for changing in place.
    pub fn mut_language(&mut self) -> (r: &mut String)
        ensures
            *r == old(self).language,
            *final(self) == (RaidTweet { language: *final(r), tweet_id: old(self).tweet_id, screen_name: old(self).screen_name, boss_name: old(self).boss_name, raid_id: old(self).raid_id, text: old(self).text, created: old(self).created, profile_image: old(self).profile_image }),
    {
        &mut self.language
    }

    /// Moves the field out, leaving it empty.
    pub fn take_language(&mut self) -> (r: String)
        ensures
            r == old(self).language,
            final(self).language@.len() == 0,
            *final(self) == (RaidTweet { language: final(self).language, tweet_id: old(self).tweet_id, screen_name: old(self).screen_name, boss_name: old(self).boss_name, raid_id: old(self).raid_id, text: old(self).text, created: old(self).created, profile_image: old(self).profile_image }),
    {
        let mut r = String::new();
        std::mem::swap(&mut self.language, &mut r);
        r
    }

    pub fn get_profile_image(&self) -> (r: &str)
        ensures
            r@ == self.profile_image@,
    {
        self.profile_image.as_str()
    }

    pub fn clear_profile_image(&mut self)
        ensures
            final(self).profile_image@.len() == 0,
            *final(self) == (RaidTweet { profile_image: final(self).profile_image, tweet_id: old(self).tweet_id, screen_name: old(self).screen_name, boss_name: old(self).boss_name, raid_id: old(self).raid_id, text: old(self).text, created: old(self).created, language: old(self).language }),
    {
        self.profile_image = String::new();
    }

    pub fn set_profile_image(&mut self, v: String)
        ensures
            *final(self) == (RaidTweet { profile_image: v, tweet_id: old(self).tweet_id, screen_name: old(self).screen_name, boss_name: old(self).boss_name, raid_id: old(self).raid_id, text: old(self).text, created: old(self).created, language: old(self).language }),
    {
        self.profile_image = v;
    }

    /// The field itself, for changing in place.
    pub fn mut_profile_image(&mut self) -> (r: &mut String)
        ensures
            *r == old(self).profile_image,
            *final(self) == (RaidTweet { profile_image: *final(r), tweet_id: old(self).tweet_id, screen_name: old(self).screen_name, boss_name: old(self).boss_name, raid_id: old(self).raid_id, text: old(self).text, created: old(self).created, language: old(self).language }),
    {
        &mut self.profile_image
    }

    /// Moves the field out, leaving it empty.
    pub fn take_profile_image(&mut self) -> (r: String)
        ensures
            r == old(self).profile_image,
            final(self).profile_image@.len() == 0,
            *final(self) == (RaidTweet { profile_image: final(self).profile_image, tweet_id: old(self).tweet_id, screen_name: old(self).screen_name, boss_name: old(self).boss_name, raid_id: old(self).raid_id, text: old(self).text, created: old(self).created, language: old(self).language }),
    {
        let mut r = String::new();
        std::mem::swap(&mut self.profile_image, &mut r);
        r
    }

}

} // verus!

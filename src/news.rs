//! One news item read from a feed, and its builder.

use vstd::prelude::*;

verus! {

/// One news item.
#[derive(Debug, Clone)]
pub struct News {
    pub title: String,
    pub description: String,
    pub link: String,
    pub permanent_link: Option<String>,
    pub author_email: Option<String>,
    pub categories: Option<Vec<String>>,
    pub media: Option<String>,
    pub comments_url: Option<String>,
    pub pub_date: Option<String>,
}

/// Builds a [`News`] from its three required fields and any optional ones.
#[derive(Debug, Clone)]
pub struct NewsBuilder {
    title: String,
    description: String,
    link: String,
    permanent_link: Option<String>,
    author_email: Option<String>,
    categories: Option<Vec<String>>,
    media: Option<String>,
    comments_url: Option<String>,
    pub_date: Option<String>,
}

impl NewsBuilder {
    /// The item that the builder stands for so far.
    pub closed spec fn spec_news(&self) -> News {
        News {
            title: self.title,
            description: self.description,
            link: self.link,
            permanent_link: self.permanent_link,
            author_email: self.author_email,
            categories: self.categories,
            media: self.media,
            comments_url: self.comments_url,
            pub_date: self.pub_date,
        }
    }

    /// A builder with the required fields and no optional one.
    pub fn new(title: String, description: String, link: String) -> (r: Self)
        ensures
            r.spec_news() == (News {
                title,
                description,
                link,
                permanent_link: None,
                author_email: None,
                categories: None,
                media: None,
                comments_url: None,
                pub_date: None,
            }),
    {
        NewsBuilder {
            title,
            description,
            link,
            permanent_link: None,
            author_email: None,
            categories: None,
            media: None,
            comments_url: None,
            pub_date: None,
        }
    }

    pub fn with_permanent_link(self, permanent_link: String) -> (r: Self)
        ensures
            r.spec_news() == (News { permanent_link: Some(permanent_link), ..self.spec_news() }),
    {
        NewsBuilder { permanent_link: Some(permanent_link), ..self }
    }

    pub fn with_author_email(self, author_email: String) -> (r: Self)
        ensures
            r.spec_news() == (News { author_email: Some(author_email), ..self.spec_news() }),
    {
        NewsBuilder { author_email: Some(author_email), ..self }
    }

    pub fn with_categories(self, categories: Vec<String>) -> (r: Self)
        ensures
            r.spec_news() == (News { categories: Some(categories), ..self.spec_news() }),
    {
        NewsBuilder { categories: Some(categories), ..self }
    }

    pub fn with_media(self, media: String) -> (r: Self)
        ensures
            r.spec_news() == (News { media: Some(media), ..self.spec_news() }),
    {
        NewsBuilder { media: Some(media), ..self }
    }

    pub fn with_comments_url(self, comments_url: String) -> (r: Self)
        ensures
            r.spec_news() == (News { comments_url: Some(comments_url), ..self.spec_news() }),
    {
        NewsBuilder { comments_url: Some(comments_url), ..self }
    }

    pub fn with_pub_date(self, pub_date: String) -> (r: Self)
        ensures
            r.spec_news() == (News { pub_date: Some(pub_date), ..self.spec_news() }),
    {
        NewsBuilder { pub_date: Some(pub_date), ..self }
    }

    /// The item with every field set so far.
    pub fn build(self) -> (r: News)
        ensures
            r == self.spec_news(),
    {
        News {
            title: self.title,
            description: self.description,
            link: self.link,
            permanent_link: self.permanent_link,
            author_email: self.author_email,
            categories: self.categories,
            media: self.media,
            comments_url: self.comments_url,
            pub_date: self.pub_date,
        }
    }
}

} // verus!

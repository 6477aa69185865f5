//! The style classes of the cards and links that the pages are made of.

use vstd::prelude::*;
use vstd::string::StringExecFns;

verus! {

/// The look of a card.
#[derive(Debug, Clone, Copy, PartialEq, Eq, Default)]
pub enum CardVariant {
    /// The plain look.
    #[default]
    Default,
    /// The look that stands out.
    Primary,
    /// An outline only.
    Outline,
    /// Neither border nor shadow.
    Borderless,
}

impl CardVariant {
    /// The classes of the look.
    pub open spec fn class_text(&self) -> Seq<char> {
        match self {
            CardVariant::Default => ""@,
            CardVariant::Primary => "bg-primary-50 dark:bg-primary-900/20"@,
            CardVariant::Outline => "border border-gray-300 dark:border-gray-600"@,
            CardVariant::Borderless => "bg-transparent shadow-none"@,
        }
    }

    /// The classes of the look.
    pub fn as_class(&self) -> (class: &'static str)
        ensures
            class@ == self.class_text(),
    {
        match self {
            CardVariant::Default => "",
            CardVariant::Primary => "bg-primary-50 dark:bg-primary-900/20",
            CardVariant::Outline => "border border-gray-300 dark:border-gray-600",
            CardVariant::Borderless => "bg-transparent shadow-none",
        }
    }
}

/// The room between a card's edge and what it holds.
#[derive(Debug, Clone, Copy, PartialEq, Eq, Default)]
pub enum CardPadding {
    Zero,
    #[default]
    Sm,
    Md,
    Lg,
    Xl,
}

impl CardPadding {
    /// The class of the padding.
    pub open spec fn class_text(&self) -> Seq<char> {
        match self {
            CardPadding::Sm => "p-4"@,
            CardPadding::Md => "p-6"@,
            CardPadding::Lg => "p-8"@,
            CardPadding::Xl => "p-12"@,
            CardPadding::Zero => ""@,
        }
    }

    /// The class of the padding.
    pub fn as_class(&self) -> (class: &'static str)
        ensures
            class@ == self.class_text(),
    {
        match self {
            CardPadding::Sm => "p-4",
            CardPadding::Md => "p-6",
            CardPadding::Lg => "p-8",
            CardPadding::Xl => "p-12",
            CardPadding::Zero => "",
        }
    }
}

/// The shadow under a card.
#[derive(Debug, Clone, Copy, PartialEq, Eq, Default)]
pub enum CardElevation {
    Flat,
    Sm,
    #[default]
    Md,
    Lg,
    Xl,
    Xxl,
    Xxxl,
}

impl CardElevation {
    /// The class of the shadow.
    pub open spec fn class_text(&self) -> Seq<char> {
        match self {
            CardElevation::Sm => "shadow-sm"@,
            CardElevation::Md => "shadow-md"@,
            CardElevation::Lg => "shadow-lg"@,
            CardElevation::Xl => "shadow-xl"@,
            CardElevation::Xxl => "shadow-2xl"@,
            CardElevation::Xxxl => "shadow-3xl"@,
            CardElevation::Flat => ""@,
        }
    }

    /// The class of the shadow.
    pub fn as_class(&self) -> (class: &'static str)
        ensures
            class@ == self.class_text(),
    {
        match self {
            CardElevation::Sm => "shadow-sm",
            CardElevation::Md => "shadow-md",
            CardElevation::Lg => "shadow-lg",
            CardElevation::Xl => "shadow-xl",
            CardElevation::Xxl => "shadow-2xl",
            CardElevation::Xxxl => "shadow-3xl",
            CardElevation::Flat => "",
        }
    }
}

/// How round a card's corners are.
#[derive(Debug, Clone, Copy, PartialEq, Eq, Default)]
pub enum CardRadius {
    Square,
    Sm,
    #[default]
    Md,
    Lg,
    Full,
}

impl CardRadius {
    /// The class of the corners.
    pub open spec fn class_text(&self) -> Seq<char> {
        match self {
            CardRadius::Sm => "rounded-sm"@,
            CardRadius::Md => "rounded-md"@,
            CardRadius::Lg => "rounded-lg"@,
            CardRadius::Full => "rounded-full"@,
            CardRadius::Square => ""@,
        }
    }

    /// The class of the corners.
    pub fn as_class(&self) -> (class: &'static str)
        ensures
            class@ == self.class_text(),
    {
        match self {
            CardRadius::Sm => "rounded-sm",
            CardRadius::Md => "rounded-md",
            CardRadius::Lg => "rounded-lg",
            CardRadius::Full => "rounded-full",
            CardRadius::Square => "",
        }
    }
}

/// The classes of a card: its padding, the white ground, its corners, its
/// shadow, the shadow it has under the pointer, the transition, and the
/// classes of its own.
pub open spec fn card_class_text(
    padding: CardPadding,
    radius: CardRadius,
    elevation: CardElevation,
    hover_elevation: CardElevation,
    class: Seq<char>,
) -> Seq<char> {
    padding.class_text() + " bg-white "@ + radius.class_text() + " "@ + elevation.class_text()
        + " hover:"@ + hover_elevation.class_text() + " transition-all duration-300 "@ + class
}

/// Puts the classes of a card together.
pub fn card_classes(
    padding: CardPadding,
    radius: CardRadius,
    elevation: CardElevation,
    hover_elevation: CardElevation,
    class: &str,
) -> (classes: String)
    ensures
        classes@ == card_class_text(padding, radius, elevation, hover_elevation, class@),
{
    let mut classes = String::new();
    classes.append(padding.as_class());
    classes.append(" bg-white ");
    classes.append(radius.as_class());
    classes.append(" ");
    classes.append(elevation.as_class());
    classes.append(" hover:");
    classes.append(hover_elevation.as_class());
    classes.append(" transition-all duration-300 ");
    classes.append(class);
    assert(classes@ =~= card_class_text(padding, radius, elevation, hover_elevation, class@));
    classes
}

/// The classes that an element is given: its own, or the default ones where
/// it has none.
pub fn class_or_default(class: &str, default_class: &str) -> (current: String)
    ensures
        current@ == (if class@.len() == 0 {
            default_class@
        } else {
            class@
        }),
{
    if class.is_empty() {
        default_class.to_owned()
    } else {
        class.to_owned()
    }
}

/// The classes of a button of the pager: the common ones, then the ground
/// that tells the current page from the others.
pub open spec fn page_button_text(is_current: bool) -> Seq<char> {
    "px-4 py-2 mx-1 text-gray-700 border border-gray-300 rounded-md hover:bg-gray-100 focus:outline-none focus:ring focus:ring-gray-300 "@
        + (if is_current {
        "bg-blue-200"@
    } else {
        "bg-white"@
    })
}

/// Puts the classes of a button of the pager together.
pub fn page_button_class(is_current: bool) -> (classes: String)
    ensures
        classes@ == page_button_text(is_current),
{
    let ground = if is_current {
        "bg-blue-200"
    } else {
        "bg-white"
    };
    let mut classes = String::new();
    classes.append(
        "px-4 py-2 mx-1 text-gray-700 border border-gray-300 rounded-md hover:bg-gray-100 focus:outline-none focus:ring focus:ring-gray-300 ",
    );
    classes.append(ground);
    assert(classes@ =~= page_button_text(is_current));
    classes
}

} // verus!

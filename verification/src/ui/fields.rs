//! Which fields of a project are shown, as the command line and the keys
//! of the interactive display set them.

use vstd::prelude::*;
use crate::text::{ascii_lower, char_ascii_lower};

verus! {

/// Which fields of a project are shown.  Artifacts are shown in up to four
/// degrees of detail, the readme in up to two.
#[derive(Debug, Clone, Copy, PartialEq, Eq, Structural)]
pub struct DisplayFields {
    pub name: bool,
    pub versions: bool,
    pub time: bool,
    pub summary: bool,
    pub license: bool,
    pub urls: bool,
    pub keywords: bool,
    pub classifiers: bool,
    pub artifacts: u8,
    pub dependencies: bool,
    pub readme: u8,
    pub packages: bool,
    pub executables: bool,
}

/// What the command line says of the fields to show: a switch for each
/// field, and how often `--verbose` and `--quiet` were given.
#[derive(Debug, Clone, Copy, PartialEq, Eq, Structural)]
pub struct Flags {
    pub distribution_selected: bool,
    pub versions: bool,
    pub summary: bool,
    pub license: bool,
    pub urls: bool,
    pub keywords: bool,
    pub classifiers: bool,
    pub artifacts: u8,
    pub dependencies: bool,
    pub readme: u8,
    pub packages: bool,
    pub executables: bool,
    pub verbose: u8,
    pub quiet: u8,
}

/// Whether a field shows that needs `--verbose` to be given `level` times:
/// it does where its own switch is given, or `--verbose` is given often
/// enough and `--quiet` not at all.
pub open spec fn shows(flags: Flags, level: u8, switch: bool) -> bool {
    switch || (flags.verbose >= level && flags.quiet < 1)
}

/// The degree of detail of a field that needs `--verbose` to be given
/// `level` times: as often as its own switch is given, or one where that
/// is not given, `--verbose` is given often enough and `--quiet` not at
/// all.
pub open spec fn detail(flags: Flags, level: u8, switch: u8) -> u8 {
    if switch > 0 {
        switch
    } else if flags.verbose >= level && flags.quiet < 1 {
        1
    } else {
        0
    }
}

/// The fields that the command line asks for.  The name shows unless
/// `--quiet` is given twice, the summary unless it is given at all; the
/// time shows where a distribution is asked for.
pub open spec fn fields_of(flags: Flags) -> DisplayFields {
    DisplayFields {
        name: flags.quiet < 2,
        versions: flags.versions,
        time: shows(flags, 1, flags.distribution_selected),
        summary: flags.quiet < 1 || flags.summary,
        license: shows(flags, 1, flags.license),
        urls: shows(flags, 1, flags.urls),
        keywords: shows(flags, 2, flags.keywords),
        classifiers: shows(flags, 2, flags.classifiers),
        artifacts: detail(flags, 3, flags.artifacts),
        dependencies: shows(flags, 4, flags.dependencies),
        readme: detail(flags, 5, flags.readme),
        packages: flags.packages,
        executables: flags.executables,
    }
}

/// The fields that can be shown.
#[derive(Debug, Clone, Copy, PartialEq, Eq, Structural)]
pub enum Field {
    Name,
    Versions,
    Time,
    Summary,
    License,
    Urls,
    Keywords,
    Classifiers,
    Artifacts,
    Dependencies,
    Readme,
    Packages,
    Executables,
}

/// The field that a lower-case letter stands for in the interactive
/// display.
pub open spec fn field_of(letter: char) -> Option<Field> {
    if letter == 'n' {
        Some(Field::Name)
    } else if letter == 'v' {
        Some(Field::Versions)
    } else if letter == 't' {
        Some(Field::Time)
    } else if letter == 's' {
        Some(Field::Summary)
    } else if letter == 'l' {
        Some(Field::License)
    } else if letter == 'u' {
        Some(Field::Urls)
    } else if letter == 'k' {
        Some(Field::Keywords)
    } else if letter == 'c' {
        Some(Field::Classifiers)
    } else if letter == 'a' {
        Some(Field::Artifacts)
    } else if letter == 'd' {
        Some(Field::Dependencies)
    } else if letter == 'r' {
        Some(Field::Readme)
    } else if letter == 'p' {
        Some(Field::Packages)
    } else if letter == 'e' {
        Some(Field::Executables)
    } else {
        None
    }
}

/// The fields with `field` shown or hidden.  Artifacts and the readme are
/// shown in degrees: showing them shows one degree more, up to four and
/// two, and hiding them one degree less.
pub open spec fn with_field(fields: DisplayFields, field: Field, shown: bool) -> DisplayFields {
    match field {
        Field::Name => DisplayFields { name: shown, ..fields },
        Field::Versions => DisplayFields { versions: shown, ..fields },
        Field::Time => DisplayFields { time: shown, ..fields },
        Field::Summary => DisplayFields { summary: shown, ..fields },
        Field::License => DisplayFields { license: shown, ..fields },
        Field::Urls => DisplayFields { urls: shown, ..fields },
        Field::Keywords => DisplayFields { keywords: shown, ..fields },
        Field::Classifiers => DisplayFields { classifiers: shown, ..fields },
        Field::Artifacts => DisplayFields { artifacts: stepped(fields.artifacts, 4, shown), ..fields },
        Field::Dependencies => DisplayFields { dependencies: shown, ..fields },
        Field::Readme => DisplayFields { readme: stepped(fields.readme, 2, shown), ..fields },
        Field::Packages => DisplayFields { packages: shown, ..fields },
        Field::Executables => DisplayFields { executables: shown, ..fields },
    }
}

/// The fields after the key `key` of the interactive display: a lower-case
/// letter shows the field that it stands for, the same letter in upper
/// case hides it.  Other keys change nothing.
pub open spec fn after_key(fields: DisplayFields, key: char) -> DisplayFields {
    match field_of(ascii_lower(key)) {
        Some(field) => with_field(fields, field, key == ascii_lower(key)),
        None => fields,
    }
}

/// A degree of detail one step up or down: one more than `degree` where
/// more is to show, unless `degree` has reached `most`, and one less where
/// less is to show, unless `degree` is zero.
pub open spec fn stepped(degree: u8, most: u8, up: bool) -> u8 {
    if up && degree < most {
        (degree + 1) as u8
    } else if !up && degree > 0 {
        (degree - 1) as u8
    } else {
        degree
    }
}

/// A degree of detail one step up or down.
pub fn step(degree: u8, most: u8, up: bool) -> (r: u8)
    ensures
        r == stepped(degree, most, up),
{
    if up && degree < most {
        degree + 1
    } else if !up && degree > 0 {
        degree - 1
    } else {
        degree
    }
}

impl DisplayFields {
    /// The fields that the command line asks for.
    pub fn from_flags(flags: &Flags) -> (r: Self)
        ensures
            r == fields_of(*flags),
    {
        let loud = flags.quiet < 1;
        DisplayFields {
            name: flags.quiet < 2,
            versions: flags.versions,
            time: flags.distribution_selected || (flags.verbose >= 1 && loud),
            summary: loud || flags.summary,
            license: flags.verbose >= 1 && loud || flags.license,
            urls: flags.verbose >= 1 && loud || flags.urls,
            keywords: flags.verbose >= 2 && loud || flags.keywords,
            classifiers: flags.verbose >= 2 && loud || flags.classifiers,
            artifacts: if flags.artifacts > 0 {
                flags.artifacts
            } else if flags.verbose >= 3 && loud {
                1
            } else {
                0
            },
            dependencies: flags.verbose >= 4 && loud || flags.dependencies,
            readme: if flags.readme > 0 {
                flags.readme
            } else if flags.verbose >= 5 && loud {
                1
            } else {
                0
            },
            packages: flags.packages,
            executables: flags.executables,
        }
    }

    /// The fields with `field` shown or hidden.
    pub fn with(self, field: Field, shown: bool) -> (r: Self)
        ensures
            r == with_field(self, field, shown),
    {
        match field {
            Field::Name => DisplayFields { name: shown, ..self },
            Field::Versions => DisplayFields { versions: shown, ..self },
            Field::Time => DisplayFields { time: shown, ..self },
            Field::Summary => DisplayFields { summary: shown, ..self },
            Field::License => DisplayFields { license: shown, ..self },
            Field::Urls => DisplayFields { urls: shown, ..self },
            Field::Keywords => DisplayFields { keywords: shown, ..self },
            Field::Classifiers => DisplayFields { classifiers: shown, ..self },
            Field::Artifacts => DisplayFields { artifacts: step(self.artifacts, 4, shown), ..self },
            Field::Dependencies => DisplayFields { dependencies: shown, ..self },
            Field::Readme => DisplayFields { readme: step(self.readme, 2, shown), ..self },
            Field::Packages => DisplayFields { packages: shown, ..self },
            Field::Executables => DisplayFields { executables: shown, ..self },
        }
    }

    /// Changes the fields as the key `key` of the interactive display
    /// asks.
    pub fn press(&mut self, key: char)
        ensures
            *final(self) == after_key(*old(self), key),
    {
        let letter = char_ascii_lower(key);
        match field_for(letter) {
            Some(field) => {
                *self = self.with(field, key == letter);
            },
            None => {},
        }
    }
}

/// The field that a lower-case letter stands for in the interactive
/// display.
pub fn field_for(letter: char) -> (r: Option<Field>)
    ensures
        r == field_of(letter),
{
    match letter {
        'n' => Some(Field::Name),
        'v' => Some(Field::Versions),
        't' => Some(Field::Time),
        's' => Some(Field::Summary),
        'l' => Some(Field::License),
        'u' => Some(Field::Urls),
        'k' => Some(Field::Keywords),
        'c' => Some(Field::Classifiers),
        'a' => Some(Field::Artifacts),
        'd' => Some(Field::Dependencies),
        'r' => Some(Field::Readme),
        'p' => Some(Field::Packages),
        'e' => Some(Field::Executables),
        _ => None,
    }
}

} // verus!

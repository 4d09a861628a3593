//! What can go wrong while a document is decoded, and how it is reported.

use vstd::prelude::*;

verus! {

/// What was wrong with one field.
#[derive(Clone, Copy, Debug, PartialEq, Eq, Hash, Structural)]
pub enum FieldErrorKind {
    /// A required field has no matching key.
    MissingField,
    /// The node's shape or the token's text does not fit the field's hint.
    TypeMismatch,
    /// A date token is malformed or names no day of the calendar.
    MalformedDate,
    /// The field's scale convention cannot hold the number read.
    TransformError,
}

/// One failure inside a record. `path` names the field, from the outermost
/// record inwards; it is empty for a failure of the node itself.
#[derive(Debug, PartialEq, Eq)]
pub struct FieldError {
    pub path: Vec<String>,
    pub kind: FieldErrorKind,
}

/// Why decoding did not produce a value.
#[derive(Debug, PartialEq, Eq)]
pub enum DecodeError {
    /// Records and arrays nest deeper than the configured maximum.
    DepthExceeded,
    /// A node that was to be bound as a record is not an object.
    UnknownTopLevelShape,
    /// Every failure of a field that was met, in the order of the record's
    /// fields and, within a field, in the order written.
    Fields(Vec<FieldError>),
}

/// The mathematical value of a [`FieldError`].
pub struct FieldErrorView {
    pub path: Seq<Seq<char>>,
    pub kind: FieldErrorKind,
}

/// The mathematical value of a [`DecodeError`].
pub enum DecodeErrorView {
    DepthExceeded,
    UnknownTopLevelShape,
    Fields(Seq<FieldErrorView>),
}

/// The mathematical values of a run of strings.
pub open spec fn names_view(names: Seq<String>) -> Seq<Seq<char>> {
    Seq::new(names.len(), |i: int| names[i]@)
}

/// The mathematical values of a run of field errors.
pub open spec fn errors_view(errors: Seq<FieldError>) -> Seq<FieldErrorView> {
    Seq::new(errors.len(), |i: int| errors[i]@)
}

impl View for FieldError {
    type V = FieldErrorView;

    open spec fn view(&self) -> FieldErrorView {
        FieldErrorView { path: names_view(self.path@), kind: self.kind }
    }
}

impl View for DecodeError {
    type V = DecodeErrorView;

    open spec fn view(&self) -> DecodeErrorView {
        match self {
            DecodeError::DepthExceeded => DecodeErrorView::DepthExceeded,
            DecodeError::UnknownTopLevelShape => DecodeErrorView::UnknownTopLevelShape,
            DecodeError::Fields(errors) => DecodeErrorView::Fields(errors_view(errors@)),
        }
    }
}

impl DecodeErrorView {
    /// Whether the error stops the decoding of every enclosing record.
    pub open spec fn is_structural(self) -> bool {
        !(self is Fields)
    }
}

/// The report of a single failure of the node at hand.
pub open spec fn failure(kind: FieldErrorKind) -> DecodeErrorView {
    DecodeErrorView::Fields(seq![FieldErrorView { path: Seq::empty(), kind }])
}

/// The error with `name` put in front of the path of every failure that it
/// reports.
pub open spec fn named(name: Seq<char>, error: DecodeErrorView) -> DecodeErrorView {
    match error {
        DecodeErrorView::Fields(errors) => DecodeErrorView::Fields(
            Seq::new(
                errors.len(),
                |i: int| FieldErrorView { path: seq![name] + errors[i].path, kind: errors[i].kind },
            ),
        ),
        _ => error,
    }
}

impl DecodeError {
    /// The report of a single failure of the node at hand.
    pub fn single(kind: FieldErrorKind) -> (error: DecodeError)
        ensures
            error@ == failure(kind),
    {
        let mut errors: Vec<FieldError> = Vec::new();
        errors.push(FieldError { path: Vec::new(), kind });
        let error = DecodeError::Fields(errors);
        assert(error@->Fields_0 =~= failure(kind)->Fields_0) by {
            assert(names_view(errors@[0].path@) =~= Seq::<Seq<char>>::empty());
        }
        error
    }

    /// Puts `name` in front of the path of every failure reported.
    pub fn under(self, name: &String) -> (error: DecodeError)
        ensures
            error@ == named(name@, self@),
    {
        match self {
            DecodeError::Fields(errors) => {
                let mut wrapped: Vec<FieldError> = Vec::new();
                let mut i: usize = 0;
                while i < errors.len()
                    invariant
                        i <= errors.len(),
                        wrapped.len() == i,
                        forall|k: int|
                            0 <= k < i ==> (#[trigger] wrapped[k])@ == (FieldErrorView {
                                path: seq![name@] + errors[k]@.path,
                                kind: errors[k].kind,
                            }),
                    decreases errors.len() - i,
                {
                    let inner: &FieldError = &errors[i];
                    let mut path: Vec<String> = Vec::new();
                    path.push(name.clone());
                    let mut j: usize = 0;
                    while j < inner.path.len()
                        invariant
                            j <= inner.path.len(),
                            path.len() == j + 1,
                            path[0]@ == name@,
                            forall|k: int|
                                1 <= k <= j ==> (#[trigger] path[k])@ == inner.path[k - 1]@,
                        decreases inner.path.len() - j,
                    {
                        path.push(inner.path[j].clone());
                        j += 1;
                    }
                    assert(names_view(path@) =~= seq![name@] + names_view(inner.path@));
                    wrapped.push(FieldError { path, kind: inner.kind });
                    i += 1;
                }
                let error = DecodeError::Fields(wrapped);
                assert(error@->Fields_0 =~= named(name@, self@)->Fields_0);
                error
            },
            DecodeError::DepthExceeded => DecodeError::DepthExceeded,
            DecodeError::UnknownTopLevelShape => DecodeError::UnknownTopLevelShape,
        }
    }
}

} // verus!

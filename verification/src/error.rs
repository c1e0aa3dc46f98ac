//! What can go wrong when a chain or a collider set is configured or posed.
use vstd::prelude::*;
use vstd::string::StringExecFns;

verus! {

/// A rejected configuration or an invalid pose.
#[derive(Clone, Copy, Debug, PartialEq, Eq, Structural)]
pub enum ChainError {
    /// The angle, axis and radius sequences of a chain differ in length.
    LengthMismatch { angles: usize, axes: usize, radii: usize },
    /// The sequences of a chain with angle limits differ in length.
    BoundsMismatch { angles: usize, axes: usize, radii: usize, min_angles: usize, max_angles: usize },
    /// The obstacle shapes and the obstacle offsets differ in number.
    ObstacleMismatch { obstacles: usize, offsets: usize },
    /// Fewer link poses were supplied than the arm has links.
    MissingPose { links: usize, poses: usize },
    /// A composed transform is not a rigid motion.
    NotRigid,
    /// Two genes to be crossed differ in length.
    ParentMismatch { first: usize, second: usize },
}

/// The character of a single decimal digit.
pub open spec fn digit(d: nat) -> char {
    if d == 0 {
        '0'
    } else if d == 1 {
        '1'
    } else if d == 2 {
        '2'
    } else if d == 3 {
        '3'
    } else if d == 4 {
        '4'
    } else if d == 5 {
        '5'
    } else if d == 6 {
        '6'
    } else if d == 7 {
        '7'
    } else if d == 8 {
        '8'
    } else {
        '9'
    }
}

/// `n` written in base ten without leading zeros.
pub open spec fn decimal(n: nat) -> Seq<char>
    decreases n,
{
    if n < 10 {
        seq![digit(n)]
    } else {
        decimal(n / 10).push(digit(n % 10))
    }
}

/// The text of an error.
pub open spec fn message_text(e: ChainError) -> Seq<char> {
    match e {
        ChainError::LengthMismatch { angles, axes, radii } => "Vector lengths unequal! angles: "@
            + decimal(angles as nat) + ", axes: "@ + decimal(axes as nat) + ", radii: "@ + decimal(
            radii as nat,
        ),
        ChainError::BoundsMismatch { angles, axes, radii, min_angles, max_angles } =>
            "Vector lengths unequal! angles: "@ + decimal(angles as nat) + ", axes: "@ + decimal(
                axes as nat,
            ) + ", radii: "@ + decimal(radii as nat) + ", min angles: "@ + decimal(
                min_angles as nat,
            ) + ", max angles: "@ + decimal(max_angles as nat),
        ChainError::ObstacleMismatch { obstacles, offsets } =>
            "Obstacle lengths unequal! obstacles: "@ + decimal(obstacles as nat) + ", offsets: "@
                + decimal(offsets as nat),
        ChainError::MissingPose { links, poses } => "Too few link poses! links: "@ + decimal(
            links as nat,
        ) + ", poses: "@ + decimal(poses as nat),
        ChainError::NotRigid => "Matrix was not an isometry"@,
        ChainError::ParentMismatch { first, second } => "Parent gene lengths unequal! "@ + decimal(
            first as nat,
        ) + " "@ + decimal(second as nat),
    }
}

fn digit_text(d: usize) -> (s: &'static str)
    requires
        d < 10,
    ensures
        s@ == seq![digit(d as nat)],
{
    proof {
        reveal_strlit("0");
        reveal_strlit("1");
        reveal_strlit("2");
        reveal_strlit("3");
        reveal_strlit("4");
        reveal_strlit("5");
        reveal_strlit("6");
        reveal_strlit("7");
        reveal_strlit("8");
        reveal_strlit("9");
    }
    let s = if d == 0 {
        "0"
    } else if d == 1 {
        "1"
    } else if d == 2 {
        "2"
    } else if d == 3 {
        "3"
    } else if d == 4 {
        "4"
    } else if d == 5 {
        "5"
    } else if d == 6 {
        "6"
    } else if d == 7 {
        "7"
    } else if d == 8 {
        "8"
    } else {
        "9"
    };
    s
}

fn append_decimal(out: &mut String, n: usize)
    ensures
        final(out)@ == old(out)@ + decimal(n as nat),
    decreases n,
{
    if n >= 10 {
        append_decimal(out, n / 10);
    }
    out.append(digit_text(n % 10));
}

impl ChainError {
    /// A sentence that names the error and the lengths involved.
    pub fn message(&self) -> (text: String)
        ensures
            text@ == message_text(*self),
    {
        match *self {
            ChainError::LengthMismatch { angles, axes, radii } => {
                let mut text = String::from_str("Vector lengths unequal! angles: ");
                append_decimal(&mut text, angles);
                text.append(", axes: ");
                append_decimal(&mut text, axes);
                text.append(", radii: ");
                append_decimal(&mut text, radii);
                text
            },
            ChainError::BoundsMismatch { angles, axes, radii, min_angles, max_angles } => {
                let mut text = String::from_str("Vector lengths unequal! angles: ");
                append_decimal(&mut text, angles);
                text.append(", axes: ");
                append_decimal(&mut text, axes);
                text.append(", radii: ");
                append_decimal(&mut text, radii);
                text.append(", min angles: ");
                append_decimal(&mut text, min_angles);
                text.append(", max angles: ");
                append_decimal(&mut text, max_angles);
                text
            },
            ChainError::ObstacleMismatch { obstacles, offsets } => {
                let mut text = String::from_str("Obstacle lengths unequal! obstacles: ");
                append_decimal(&mut text, obstacles);
                text.append(", offsets: ");
                append_decimal(&mut text, offsets);
                text
            },
            ChainError::MissingPose { links, poses } => {
                let mut text = String::from_str("Too few link poses! links: ");
                append_decimal(&mut text, links);
                text.append(", poses: ");
                append_decimal(&mut text, poses);
                text
            },
            ChainError::NotRigid => String::from_str("Matrix was not an isometry"),
            ChainError::ParentMismatch { first, second } => {
                let mut text = String::from_str("Parent gene lengths unequal! ");
                append_decimal(&mut text, first);
                text.append(" ");
                append_decimal(&mut text, second);
                text
            },
        }
    }
}

} // verus!

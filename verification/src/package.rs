//! Deploying a package: the request that is sent, the response that comes
//! back, and the check of the response.

use vstd::prelude::*;
use crate::field::Address;
use crate::program::{ProgramID, ProgramIDView};

verus! {

/// The ghost value of a deployment.
pub struct DeploymentView {
    pub edition: u16,
    pub program_id: ProgramIDView,
    pub program: Seq<u8>,
}

/// A deployment of a program: the edition, the program ID and the program.
#[derive(Clone, PartialEq, Eq, Debug)]
pub struct Deployment {
    /// The edition.
    pub edition: u16,
    /// The program ID.
    pub program_id: ProgramID,
    /// The program, as the bytes it is written as.
    pub program: Vec<u8>,
}

impl DeepView for Deployment {
    type V = DeploymentView;

    open spec fn deep_view(&self) -> DeploymentView {
        DeploymentView {
            edition: self.edition,
            program_id: self.program_id.deep_view(),
            program: self.program@,
        }
    }
}

impl Deployment {
    /// Returns the edition.
    pub fn edition(&self) -> (r: u16)
        ensures
            r == self.edition,
    {
        self.edition
    }

    /// Returns the program ID.
    pub fn program_id(&self) -> (r: &ProgramID)
        ensures
            r == &self.program_id,
    {
        &self.program_id
    }

    /// Returns the program.
    pub fn program(&self) -> (r: &Vec<u8>)
        ensures
            r == &self.program,
    {
        &self.program
    }
}

/// A request to deploy a program.
#[derive(Clone, PartialEq, Eq, Debug)]
pub struct DeployRequest {
    pub deployment: Deployment,
    pub address: Address,
    pub program_id: ProgramID,
}

impl DeployRequest {
    /// Initializes a new deploy request.
    pub fn new(deployment: Deployment, address: Address, program_id: ProgramID) -> (r: Self)
        ensures
            r.deployment == deployment,
            r.address == address,
            r.program_id == program_id,
    {
        Self { deployment, address, program_id }
    }

    /// Returns the program.
    pub fn deployment(&self) -> (r: &Deployment)
        ensures
            r == &self.deployment,
    {
        &self.deployment
    }

    /// Returns the program address.
    pub fn address(&self) -> (r: &Address)
        ensures
            r == &self.address,
    {
        &self.address
    }

    /// Returns the imports.
    pub fn program_id(&self) -> (r: &ProgramID)
        ensures
            r == &self.program_id,
    {
        &self.program_id
    }
}

/// The response to a request to deploy a program.
#[derive(Clone, PartialEq, Eq, Debug)]
pub struct DeployResponse {
    pub deployment: Deployment,
}

impl DeployResponse {
    /// Initializes a new deploy response.
    pub fn new(deployment: Deployment) -> (r: Self)
        ensures
            r.deployment == deployment,
    {
        Self { deployment }
    }

    /// Returns the program ID.
    pub fn deployment(&self) -> (r: &Deployment)
        ensures
            r == &self.deployment,
    {
        &self.deployment
    }
}

/// The program ID of the response is not that of the program that was deployed.
#[derive(Clone, PartialEq, Eq, Debug)]
pub struct ProgramIDMismatch {
    /// The program ID of the response.
    pub found: ProgramID,
    /// The program ID of the program.
    pub expected: ProgramID,
}

/// A package that is deployed.
#[derive(Clone, Copy, Debug)]
pub struct Package;

impl Package {
    /// Decides what a deployment gives: without an endpoint the deployment
    /// that was computed, and with one the deployment of the response, whose
    /// program ID must be that of the program.
    pub fn deploy(
        deployment: Deployment,
        program_id: &ProgramID,
        response: Option<DeployResponse>,
    ) -> (r: Result<Deployment, ProgramIDMismatch>)
        ensures
            match response {
                None => r == Ok::<Deployment, ProgramIDMismatch>(deployment),
                Some(response) => if response.deployment.program_id.deep_view()
                    == program_id.deep_view() {
                    r == Ok::<Deployment, ProgramIDMismatch>(response.deployment)
                } else {
                    r matches Err(e) && e.found.deep_view()
                        == response.deployment.program_id.deep_view() && e.expected.deep_view()
                        == program_id.deep_view()
                },
            },
    {
        match response {
            Some(response) => {
                // Ensure the program ID matches.
                if !response.deployment.program_id().is_equal(program_id) {
                    return Err(
                        ProgramIDMismatch {
                            found: response.deployment.program_id().duplicate(),
                            expected: program_id.duplicate(),
                        },
                    );
                }
                Ok(response.deployment)
            },
            None => Ok(deployment),
        }
    }
}

} // verus!

use vstd::prelude::*;

verus! {

/// The base image every jail starts from.
pub const IMAGE_NAME: &'static str = "jail-dev:latest";

/// The build file of the base image, streamed to the engine's build.
///
/// It installs Node.js through nvm but no command-line tool globally through
/// npm: the image carries no coding-assistant CLI, which can be installed
/// inside a jail with `npm install -g` where one is wanted.
pub const DOCKERFILE: &'static str = r#"FROM ubuntu:24.04

# Avoid interactive prompts
ENV DEBIAN_FRONTEND=noninteractive

# Install base packages and VSCode Server dependencies
RUN apt-get update && apt-get install -y \
    git \
    build-essential \
    curl \
    wget \
    sudo \
    vim \
    openssh-client \
    ca-certificates \
    # VSCode Server dependencies
    libxkbfile1 \
    libsecret-1-0 \
    libnss3 \
    libatk1.0-0 \
    libatk-bridge2.0-0 \
    libdrm2 \
    libgtk-3-0 \
    libgbm1 \
    libasound2t64 \
    && rm -rf /var/lib/apt/lists/*

# Create non-root user with sudo access
RUN useradd -m -s /bin/bash dev && \
    echo "dev ALL=(ALL) NOPASSWD:ALL" >> /etc/sudoers

# Switch to dev user for tool installations
USER dev
WORKDIR /home/dev

# Install nvm and Node.js
ENV NVM_DIR=/home/dev/.nvm
RUN curl -o- https://raw.githubusercontent.com/nvm-sh/nvm/v0.40.1/install.sh | bash && \
    . "$NVM_DIR/nvm.sh" && \
    nvm install --lts && \
    nvm use --lts

# Install Rust via rustup
RUN curl --proto '=https' --tlsv1.2 -sSf https://sh.rustup.rs | sh -s -- -y
ENV PATH="/home/dev/.cargo/bin:${PATH}"

# Install Python3 (already in ubuntu, just ensure pip)
USER root
RUN apt-get update && apt-get install -y python3-pip python3-venv && rm -rf /var/lib/apt/lists/*
USER dev

# Setup bash profile to load nvm
RUN echo 'export NVM_DIR="$HOME/.nvm"' >> ~/.bashrc && \
    echo '[ -s "$NVM_DIR/nvm.sh" ] && \. "$NVM_DIR/nvm.sh"' >> ~/.bashrc && \
    echo '[ -s "$NVM_DIR/bash_completion" ] && \. "$NVM_DIR/bash_completion"' >> ~/.bashrc

# Set working directory
WORKDIR /workspace

# Default command
CMD ["/bin/bash"]
"#;

} // verus!
